use crabsoup::slug::{slugify, slugify_ascii, slugify_soft};

#[test]
fn slugify_cases() {
    assert_eq!(slugify("  Hello  World__ ").unwrap(), "Hello_World");
    assert_eq!(slugify("a\u{3000}b").unwrap(), "a_b");
    assert_eq!(slugify("___").unwrap(), "");
    assert_eq!(slugify("a-b").unwrap(), "a-b");
    assert_eq!(slugify("a\tb").unwrap(), "a\tb");
}

#[test]
fn slugify_clean_edges() {
    let s = slugify("_ a _ b\u{2028}c _").unwrap();
    assert_eq!(s, "a_b_c");
    assert!(!s.contains("__"));
    assert!(!s.starts_with('_') && !s.ends_with('_'));
}

#[test]
fn slugify_ascii_cases() {
    assert_eq!(slugify_ascii("Hello, World!").unwrap(), "Hello-World-");
    assert_eq!(slugify_ascii("").unwrap(), "");
    assert_eq!(slugify_ascii("--a--").unwrap(), "-a-");
    assert_eq!(slugify_ascii("héllo").unwrap(), "h-llo");
}

#[test]
fn slugify_soft_cases() {
    assert_eq!(slugify_soft("a+b=c").unwrap(), "a-b-c");
    assert_eq!(slugify_soft("a \u{a9}\u{a9} b").unwrap(), "a - b");
    assert_eq!(slugify_soft("plain").unwrap(), "plain");
}

#[test]
fn slugs_are_fixed_points() {
    for title in ["  Hello  World__ ", "_ a _ b\u{2028}c _", "x", ""] {
        let once = slugify(title).unwrap();
        assert_eq!(slugify(&once).unwrap(), once);
    }
    for title in ["Hello, World!", "--a--", "héllo", ""] {
        let once = slugify_ascii(title).unwrap();
        assert_eq!(slugify_ascii(&once).unwrap(), once);
    }
}
