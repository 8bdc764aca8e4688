use crabsoup::regex_lib::{escape, find_all, is_match, replace, replace_all, split};

#[test]
fn regex_operations() {
    assert!(is_match("abc", "b").unwrap());
    assert!(!is_match("abc", "^b").unwrap());
    assert_eq!(find_all("a1b22", "\\d+").unwrap(), vec!["1".to_string(), "22".to_string()]);
    assert_eq!(replace("aaa", "a", "b").unwrap(), "baa");
    assert_eq!(replace_all("aaa", "a", "b").unwrap(), "bbb");
    assert_eq!(
        split("a,b,,c", ",").unwrap(),
        vec!["a".to_string(), "b".to_string(), String::new(), "c".to_string()]
    );
    assert_eq!(escape("a.b*"), "a\\.b\\*");
}

#[test]
fn invalid_pattern() {
    assert!(is_match("abc", "(").is_err());
    assert!(find_all("abc", "[").is_err());
    assert!(replace_all("abc", "(", "x").is_err());
}

#[test]
fn escape_meta_characters() {
    assert_eq!(escape("a-b~c&d#"), "a\\-b\\~c\\&d\\#");
    assert_eq!(escape("\\"), "\\\\");
    assert_eq!(escape("plain text"), "plain text");
}
