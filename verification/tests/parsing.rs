use success_core::strutil::{chars_of, string_of};
use success_core::utils::{
    format_duration_suggestion, parse_commands_input, parse_duration, parse_editor_command,
    parse_optional_u32, trim_chars, u64_to_chars, wrap_text,
};

fn s(text: &str) -> String {
    text.to_string()
}

#[test]
fn duration_hours_and_minutes() {
    assert_eq!(parse_duration("1h30m"), Some(5400));
}

#[test]
fn duration_bare_number_is_minutes() {
    assert_eq!(parse_duration("90"), Some(5400));
}

#[test]
fn duration_seconds() {
    assert_eq!(parse_duration("45s"), Some(45));
}

#[test]
fn duration_empty_fails() {
    assert_eq!(parse_duration(""), None);
}

#[test]
fn duration_letters_fail() {
    assert_eq!(parse_duration("abc"), None);
}

#[test]
fn duration_zero_fails() {
    assert_eq!(parse_duration("0m"), None);
}

#[test]
fn duration_whitespace_only_fails() {
    assert_eq!(parse_duration("   "), None);
}

#[test]
fn duration_spaces_between_parts() {
    assert_eq!(parse_duration("1h 30m"), Some(5400));
    assert_eq!(parse_duration("2H5S"), Some(7205));
}

#[test]
fn duration_punctuation_fails() {
    assert_eq!(parse_duration("1h,30m"), None);
    assert_eq!(parse_duration("90x"), None);
}

#[test]
fn duration_letter_with_no_digits_fails() {
    assert_eq!(parse_duration("x90"), None);
    assert_eq!(parse_duration("m5"), None);
    assert_eq!(parse_duration("1h x"), None);
}

#[test]
fn duration_overflow_fails() {
    assert_eq!(parse_duration("99999999999999999999h"), None);
}

#[test]
fn optional_u32_empty_is_none() {
    assert_eq!(parse_optional_u32(""), None);
    assert_eq!(parse_optional_u32("   "), None);
}

#[test]
fn optional_u32_plain() {
    assert_eq!(parse_optional_u32("12"), Some(12));
    assert_eq!(parse_optional_u32("  7 "), Some(7));
    assert_eq!(parse_optional_u32("+3"), Some(3));
}

#[test]
fn optional_u32_garbage_is_none() {
    assert_eq!(parse_optional_u32("abc"), None);
    assert_eq!(parse_optional_u32("-1"), None);
    assert_eq!(parse_optional_u32("1 2"), None);
}

#[test]
fn optional_u32_overflow_is_none() {
    assert_eq!(parse_optional_u32("4294967295"), Some(u32::MAX));
    assert_eq!(parse_optional_u32("4294967296"), None);
}

#[test]
fn commands_split_and_trim() {
    let cmds = parse_commands_input(" code . ; firefox\n  ; ;steam ");
    assert_eq!(cmds, vec![s("code ."), s("firefox"), s("steam")]);
}

#[test]
fn commands_empty_input() {
    let cmds = parse_commands_input("  ");
    assert!(cmds.is_empty());
}

#[test]
fn editor_command_plain() {
    assert_eq!(parse_editor_command("nvim -u init.lua"), vec![s("nvim"), s("-u"), s("init.lua")]);
}

#[test]
fn editor_command_quotes() {
    assert_eq!(
        parse_editor_command("'my editor' --wait \"two words\""),
        vec![s("my editor"), s("--wait"), s("two words")]
    );
}

#[test]
fn editor_command_escapes() {
    assert_eq!(parse_editor_command("a\\ b c"), vec![s("a b"), s("c")]);
    assert_eq!(parse_editor_command(""), Vec::<String>::new());
}

#[test]
fn suggestion_formats() {
    assert_eq!(format_duration_suggestion(0), s("1s"));
    assert_eq!(format_duration_suggestion(-3), s("1s"));
    assert_eq!(format_duration_suggestion(25), s("25m"));
    assert_eq!(format_duration_suggestion(60), s("1h"));
    assert_eq!(format_duration_suggestion(90), s("1h 30m"));
}

#[test]
fn wrap_basic() {
    assert_eq!(wrap_text("one two three", 8), vec![s("one two"), s("three")]);
}

#[test]
fn wrap_zero_width_returns_text() {
    assert_eq!(wrap_text("anything at all", 0), vec![s("anything at all")]);
}

#[test]
fn wrap_long_word_chunks() {
    assert_eq!(wrap_text("abcdefgh", 3), vec![s("abc"), s("def"), s("gh")]);
}

#[test]
fn wrap_empty_gives_one_empty_line() {
    assert_eq!(wrap_text("   ", 5), vec![s("")]);
}

#[test]
fn wrap_collapses_whitespace() {
    assert_eq!(wrap_text("a   b", 10), vec![s("a b")]);
}

#[test]
fn trim_and_conversions() {
    let v = chars_of("  hi there ");
    let t = trim_chars(&v);
    assert_eq!(string_of(&t), s("hi there"));
    assert_eq!(string_of(&u64_to_chars(0)), s("0"));
    assert_eq!(string_of(&u64_to_chars(90210)), s("90210"));
}
