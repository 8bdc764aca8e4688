use crabsoup::css::escape_css;

#[test]
fn escape_css_leading_digit() {
    assert_eq!(escape_css("1a"), "\\000031a");
    assert_eq!(escape_css("a1"), "a1");
    assert_eq!(escape_css("\u{0660}x"), "\\000660x");
}

#[test]
fn escape_css_control_and_special() {
    assert_eq!(escape_css("a\n"), "a\\00000a");
    assert_eq!(escape_css("a.b#c"), "a\\.b\\#c");
    assert_eq!(escape_css("-_"), "\\-_");
    assert_eq!(escape_css("\u{9f}"), "\\00009f");
    assert_eq!(escape_css(""), "");
    assert_eq!(escape_css("é"), "é");
}
