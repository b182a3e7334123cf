use success_core::app::AppState;
use success_core::key_event::{AppKeyCode, AppKeyEvent};
use success_core::notes::{line_starts, notes_cursor_line_col};
use success_core::store::{SessionKind, Store};
use success_core::strutil::{chars_of, string_of};
use success_core::types::Mode;

const NOW: i64 = 1_000_000_000;

fn key(code: AppKeyCode) -> AppKeyEvent {
    AppKeyEvent { code, ctrl: false, alt: false, shift: false }
}

fn ctrl(code: AppKeyCode) -> AppKeyEvent {
    AppKeyEvent { code, ctrl: true, alt: false, shift: false }
}

fn state_with_session() -> (AppState, u64) {
    let mut store = Store::new();
    let g = store.add_goal("Read".to_string(), false, Vec::new(), None);
    let day = NOW / 86400;
    store.add_session(g, "Read".to_string(), NOW - 5000, 600, SessionKind::Goal, None, day);
    (AppState::new(store, NOW, 0), g)
}

#[test]
fn editing_notes_persists_every_keystroke() {
    let (mut state, g) = state_with_session();
    state.selected = 0;
    state.handle_key(key(AppKeyCode::Char('e')), NOW);
    assert!(matches!(state.mode, Mode::NotesEdit));
    for c in "hi".chars() {
        state.handle_key(key(AppKeyCode::Char(c)), NOW);
    }
    assert_eq!(state.store.get_note(g), "hi");
    state.handle_key(key(AppKeyCode::Enter), NOW);
    state.handle_key(key(AppKeyCode::Char('x')), NOW);
    assert_eq!(state.store.get_note(g), "hi\nx");
    state.handle_key(key(AppKeyCode::Backspace), NOW);
    assert_eq!(state.store.get_note(g), "hi\n");
    state.handle_key(key(AppKeyCode::Esc), NOW);
    assert!(matches!(state.mode, Mode::View));
    assert_eq!(state.store.get_note(g), "hi\n");
}

#[test]
fn tab_inserts_four_spaces() {
    let (mut state, g) = state_with_session();
    state.selected = 0;
    state.handle_key(key(AppKeyCode::Char('e')), NOW);
    state.handle_key(key(AppKeyCode::Tab), NOW);
    assert_eq!(state.store.get_note(g), "    ");
}

#[test]
fn vertical_motion_clamps_column() {
    let (mut state, _g) = state_with_session();
    state.selected = 0;
    state.handle_key(key(AppKeyCode::Char('e')), NOW);
    for c in "long line\nab".chars() {
        if c == '\n' {
            state.handle_key(key(AppKeyCode::Enter), NOW);
        } else {
            state.handle_key(key(AppKeyCode::Char(c)), NOW);
        }
    }
    // Cursor sits at the end of "ab" (column 2); moving up keeps the
    // column, moving up from column 9 clamps to the short line's end.
    state.handle_key(key(AppKeyCode::Up), NOW);
    assert_eq!(state.notes_cursor, 2);
    state.handle_key(key(AppKeyCode::End), NOW); // not a notes key: ignored
    state.handle_key(key(AppKeyCode::Down), NOW);
    assert_eq!(state.notes_cursor, 12);
    state.handle_key(key(AppKeyCode::Up), NOW);
    state.handle_key(key(AppKeyCode::Down), NOW);
    assert_eq!(state.notes_cursor, 12);
}

#[test]
fn word_motions_in_notes() {
    let (mut state, _g) = state_with_session();
    state.selected = 0;
    state.handle_key(key(AppKeyCode::Char('e')), NOW);
    for c in "one two".chars() {
        state.handle_key(key(AppKeyCode::Char(c)), NOW);
    }
    state.handle_key(ctrl(AppKeyCode::Left), NOW);
    assert_eq!(state.notes_cursor, 4);
    state.handle_key(ctrl(AppKeyCode::Left), NOW);
    assert_eq!(state.notes_cursor, 0);
    state.handle_key(ctrl(AppKeyCode::Right), NOW);
    assert_eq!(state.notes_cursor, 3);
}

#[test]
fn line_table_and_cursor_position() {
    let notes = chars_of("ab\ncd\n\nx");
    assert_eq!(line_starts(&notes), vec![0, 3, 6, 7]);
    let (mut state, _g) = state_with_session();
    state.notes = notes;
    state.notes_cursor = 4;
    let (line, col) = notes_cursor_line_col(&state);
    assert_eq!((line, col), (1, 1));
}

#[test]
fn refreshed_note_appears_in_buffer() {
    let (mut state, g) = state_with_session();
    state.store.edit_note(g, "remember this".to_string());
    state.selected = 0;
    state.handle_key(key(AppKeyCode::Char('e')), NOW);
    assert_eq!(string_of(&state.notes), "remember this");
    assert_eq!(state.notes_cursor, state.notes.len());
}
