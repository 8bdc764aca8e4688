use crabsoup::log::{log_target, value_to_str};

fn strs(v: &[&str]) -> Vec<String> {
    v.iter().map(|s| s.to_string()).collect()
}

#[test]
fn log_targets() {
    assert_eq!(log_target(None), "crabsoup::libs::log");
    assert_eq!(log_target(Some("@scripts/foo.luau")), "scripts/foo");
    assert_eq!(log_target(Some("@scripts/foo.lua")), "scripts/foo");
    assert_eq!(log_target(Some("@a.lua#b.luau#c")), "a#b#c");
    assert_eq!(log_target(Some("=stdin")), "<loadstring>");
    assert_eq!(log_target(Some("")), "<loadstring>");
    assert_eq!(log_target(Some("@")), "");
}

#[test]
fn message_text() {
    assert_eq!(value_to_str(&strs(&["a", "b"])), "a\tb");
    assert_eq!(value_to_str(&strs(&["", "a"])), "a");
    assert_eq!(value_to_str(&strs(&["a", "", " b"])), "a\t\t b");
    assert_eq!(value_to_str(&Vec::new()), "");
}
