use release_gate::blog::posts_to_skip;
use release_gate::serde_examples::Name;
use release_gate::serde_examples::Names;
use release_gate::serde_examples::post_json_example;
use release_gate::users::User;
use release_gate::utils::remove_suffix;
use release_gate::utils::trim_release_notes_end;

#[test]
fn remove_suffix_strips_when_present() {
    assert_eq!(remove_suffix("hello world", " world"), "hello");
}

#[test]
fn remove_suffix_keeps_string_without_suffix() {
    assert_eq!(remove_suffix("hello world", "planet"), "hello world");
    assert_eq!(remove_suffix("short", "much longer suffix"), "short");
}

#[test]
fn remove_suffix_of_whole_string_is_empty() {
    assert_eq!(remove_suffix("abc", "abc"), "");
}

#[test]
fn trim_strips_trailing_whitespace_repeatedly() {
    assert_eq!(trim_release_notes_end("a \r\n \n "), "a");
    assert_eq!(trim_release_notes_end("  "), "");
    assert_eq!(trim_release_notes_end("a b"), "a b");
}

#[test]
fn new_user_is_not_admin() {
    let u = User::new("alice", "argon2-hash");
    assert_eq!(u.username(), "alice");
    assert_eq!(u.password_hash(), "argon2-hash");
    assert!(!u.admin());
}

#[test]
fn post_json_example_appends_fixed_name() {
    let names = Names(vec![Name { first: "Elijah".to_string(), last: "L".to_string() }]);
    let r = post_json_example(names);
    assert_eq!(r.0.len(), 2);
    assert_eq!(r.0[0].first, "Elijah");
    assert_eq!(r.0[0].last, "L");
    assert_eq!(r.0[1].first, "Rachel");
    assert_eq!(r.0[1].last, "Matthews");
}

#[test]
fn post_json_example_on_empty_list() {
    let r = post_json_example(Names(vec![]));
    assert_eq!(r.0.len(), 1);
    assert_eq!(r.0[0].first, "Rachel");
}

#[test]
fn first_page_skips_nothing() {
    assert_eq!(posts_to_skip(None), 0);
    assert_eq!(posts_to_skip(Some(1)), 0);
    assert_eq!(posts_to_skip(Some(0)), 0);
}

#[test]
fn later_pages_skip_fifty_each() {
    assert_eq!(posts_to_skip(Some(2)), 50);
    assert_eq!(posts_to_skip(Some(11)), 500);
}

#[test]
fn oversized_page_is_clamped() {
    let max_skip = (u64::MAX / 50) * 50;
    assert_eq!(posts_to_skip(Some(u64::MAX)), max_skip);
    assert_eq!(posts_to_skip(Some(u64::MAX / 50 + 1)), max_skip);
}
