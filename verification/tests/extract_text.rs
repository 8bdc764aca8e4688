use crabsoup::extract_text::{inner_text, inner_text_from, strip_tags, strip_tags_from};

fn strs(v: &[&str]) -> Vec<String> {
    v.iter().map(|s| s.to_string()).collect()
}

#[test]
fn inner_text_joins_with_single_spaces() {
    assert_eq!(inner_text_from(&strs(&["Hello ", "world"])), "Hello world");
    assert_eq!(inner_text_from(&strs(&["  a  b  ", "c"])), " a b c");
    assert_eq!(inner_text_from(&strs(&["a", " ", " ", "b"])), "a b");
}

#[test]
fn inner_text_edge_cases() {
    assert_eq!(inner_text_from(&Vec::new()), "");
    assert_eq!(inner_text_from(&strs(&["", ""])), "");
    assert_eq!(inner_text_from(&strs(&["   "])), " ");
    assert_eq!(inner_text_from(&strs(&["a\n\tb"])), "a b ");
    assert_eq!(inner_text_from(&strs(&["a  b", "c"])), "a b c");
    assert_eq!(inner_text_from(&strs(&["x\u{3000}"])), "x ");
}

#[test]
fn inner_text_law_single_spaced() {
    let out = inner_text_from(&strs(&["  a  ", "  ", "\n b \u{a0}", "c"]));
    assert!(!out.contains("  "));
    assert!(out.chars().all(|c| !c.is_whitespace() || c == ' '));
    assert_eq!(out, " a b c");
}

#[test]
fn strip_tags_concatenates() {
    assert_eq!(strip_tags_from(&strs(&["a ", " b", ""])), "a  b");
    assert_eq!(strip_tags_from(&Vec::new()), "");
}

#[test]
fn text_of_parsed_html() {
    let doc = tsugiki::parse_document("<div>a<span> b</span>c</div>");
    assert_eq!(strip_tags(&doc), "a bc");
    let doc = tsugiki::parse_document("<p>Hello   <b>world</b></p>");
    assert_eq!(inner_text(&doc), "Hello world");
}

#[test]
fn inner_text_keeps_the_words() {
    let texts = strs(&["  Hello\n\n", "big\tworld ", "", " !"]);
    let keep = |s: String| s.chars().filter(|c| !c.is_whitespace()).collect::<String>();
    assert_eq!(keep(inner_text_from(&texts)), keep(strip_tags_from(&texts)));
    let plain = strs(&["a", "b", "", "c"]);
    assert_eq!(inner_text_from(&plain), strip_tags_from(&plain));
}
