use success_core::key_event::{AppKeyCode, AppKeyEvent};
use success_core::strutil::{chars_of, string_of};
use success_core::text_input::TextInput;

fn key(code: AppKeyCode) -> AppKeyEvent {
    AppKeyEvent { code, ctrl: false, alt: false, shift: false }
}

fn ctrl_key(code: AppKeyCode) -> AppKeyEvent {
    AppKeyEvent { code, ctrl: true, alt: false, shift: false }
}

fn text(t: &TextInput) -> String {
    string_of(&t.value)
}

#[test]
fn insert_then_delete_back_is_identity() {
    let mut t = TextInput::from_string(chars_of("hello"));
    t.move_left();
    t.move_left();
    let before = text(&t);
    let cursor_before = t.cursor;
    t.insert_char('X');
    t.delete_char_back();
    assert_eq!(text(&t), before);
    assert_eq!(t.cursor, cursor_before);
}

#[test]
fn cursor_stays_in_range() {
    let mut t = TextInput::new(chars_of("ab"));
    for _ in 0..5 {
        t.move_right();
        assert!(t.cursor <= t.value.len());
    }
    for _ in 0..5 {
        t.move_left();
        assert!(t.cursor <= t.value.len());
    }
    assert_eq!(t.cursor, 0);
    t.delete_char_back();
    assert_eq!(text(&t), "ab");
}

#[test]
fn delete_forward_at_end_is_noop() {
    let mut t = TextInput::new(chars_of("ab"));
    t.delete_char_forward();
    assert_eq!(text(&t), "ab");
    t.move_left();
    t.delete_char_forward();
    assert_eq!(text(&t), "a");
}

#[test]
fn insert_mid_string() {
    let mut t = TextInput::new(chars_of("ace"));
    t.move_left();
    t.insert_char('d');
    assert_eq!(text(&t), "acde");
    assert_eq!(t.cursor, 3);
}

#[test]
fn word_motions() {
    let mut t = TextInput::new(chars_of("one  two three"));
    t.move_word_left();
    assert_eq!(t.cursor, 9);
    t.move_word_left();
    assert_eq!(t.cursor, 5);
    t.move_word_left();
    assert_eq!(t.cursor, 0);
    t.move_word_right();
    assert_eq!(t.cursor, 5);
    t.move_word_right();
    assert_eq!(t.cursor, 9);
}

#[test]
fn unicode_insert_never_splits() {
    let mut t = TextInput::new(chars_of("aä"));
    t.move_left();
    t.insert_char('ü');
    assert_eq!(text(&t), "aüä");
    assert_eq!(t.cursor, 2);
}

#[test]
fn handle_key_consumption() {
    let mut t = TextInput::new(chars_of("hi"));
    assert!(t.handle_key(&key(AppKeyCode::Char('!'))));
    assert_eq!(text(&t), "hi!");
    assert!(t.handle_key(&key(AppKeyCode::Backspace)));
    assert_eq!(text(&t), "hi");
    assert!(t.handle_key(&key(AppKeyCode::Home)));
    assert_eq!(t.cursor, 0);
    assert!(t.handle_key(&key(AppKeyCode::End)));
    assert_eq!(t.cursor, 2);
    assert!(!t.handle_key(&key(AppKeyCode::Enter)));
    assert!(!t.handle_key(&key(AppKeyCode::Esc)));
    assert!(!t.handle_key(&ctrl_key(AppKeyCode::Char('x'))));
    assert_eq!(text(&t), "hi");
}

#[test]
fn ctrl_arrows_move_by_word() {
    let mut t = TextInput::new(chars_of("ab cd"));
    assert!(t.handle_key(&ctrl_key(AppKeyCode::Left)));
    assert_eq!(t.cursor, 3);
    assert!(t.handle_key(&ctrl_key(AppKeyCode::Left)));
    assert_eq!(t.cursor, 0);
    assert!(t.handle_key(&ctrl_key(AppKeyCode::Right)));
    assert_eq!(t.cursor, 3);
}

#[test]
fn clear_empties() {
    let mut t = TextInput::new(chars_of("junk"));
    t.clear();
    assert_eq!(text(&t), "");
    assert_eq!(t.cursor, 0);
}

#[test]
fn is_ctrl_c_detection() {
    assert!(ctrl_key(AppKeyCode::Char('c')).is_ctrl_c());
    assert!(!key(AppKeyCode::Char('c')).is_ctrl_c());
    assert!(!ctrl_key(AppKeyCode::Char('d')).is_ctrl_c());
}
