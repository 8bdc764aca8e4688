use crabsoup::classes::{add_class, check_class_name, has_class, remove_class, split_classes, ClassError};

fn strs(v: &[&str]) -> Vec<String> {
    v.iter().map(|s| s.to_string()).collect()
}

#[test]
fn split_classes_dedups_and_trims() {
    assert_eq!(split_classes("  a b\ta  c\n"), strs(&["a", "b", "c"]));
    assert_eq!(split_classes(""), Vec::<String>::new());
    assert_eq!(split_classes(" \t\r\n\x0C "), Vec::<String>::new());
}

#[test]
fn split_classes_keeps_other_white_space_inside() {
    assert_eq!(split_classes("x\u{a0}y z"), strs(&["x\u{a0}y", "z"]));
    assert_eq!(split_classes(" \u{a0}a "), strs(&["a"]));
    assert_eq!(split_classes("b a b a"), strs(&["b", "a"]));
}

#[test]
fn check_class_name_rules() {
    assert_eq!(check_class_name("a"), Ok(()));
    assert_eq!(check_class_name(""), Ok(()));
    assert_eq!(check_class_name("a b"), Err(ClassError::InvalidClassName));
    assert_eq!(check_class_name("a\tb"), Err(ClassError::InvalidClassName));
    assert_eq!(check_class_name("\u{a0}a"), Err(ClassError::InvalidClassName));
    assert_eq!(check_class_name("a\u{2003}"), Err(ClassError::InvalidClassName));
}

#[test]
fn has_class_cases() {
    assert_eq!(has_class(None, "x"), Ok(false));
    assert_eq!(has_class(None, "x y"), Ok(false));
    assert_eq!(has_class(Some("a b"), "b"), Ok(true));
    assert_eq!(has_class(Some("a b"), "c"), Ok(false));
    assert_eq!(has_class(Some("a"), "b c"), Err(ClassError::InvalidClassName));
}

#[test]
fn add_class_cases() {
    assert_eq!(add_class(Some("a b"), "c").unwrap(), "a b c");
    assert_eq!(add_class(Some("a b"), "a").unwrap(), "a b");
    assert_eq!(add_class(None, "x").unwrap(), "x");
    assert_eq!(add_class(Some("a"), "").unwrap(), "a ");
    assert_eq!(add_class(None, " bad"), Err(ClassError::InvalidClassName));
    assert_eq!(add_class(Some("a"), "b c"), Err(ClassError::InvalidClassName));
}

#[test]
fn remove_class_cases() {
    assert_eq!(remove_class(Some("a b  a c"), "a").unwrap(), Some("b c".to_string()));
    assert_eq!(remove_class(None, "a").unwrap(), None);
    assert_eq!(remove_class(None, "a b").unwrap(), None);
    assert_eq!(remove_class(Some("a"), "a").unwrap(), Some(String::new()));
    assert_eq!(remove_class(Some(" x  y "), "z").unwrap(), Some("x y".to_string()));
    assert_eq!(remove_class(Some("a"), "x y"), Err(ClassError::InvalidClassName));
}

#[test]
fn law_add_then_has_concrete() {
    let added = add_class(Some("a\tb"), "c").unwrap();
    assert_eq!(has_class(Some(&added), "c"), Ok(true));
    let again = add_class(Some(&added), "c").unwrap();
    assert_eq!(again, added);
}

#[test]
fn law_remove_then_not_has_concrete() {
    let removed = remove_class(Some("c a c b"), "c").unwrap().unwrap();
    assert_eq!(has_class(Some(&removed), "c"), Ok(false));
    assert_eq!(split_classes(&removed), strs(&["a", "b"]));
}

#[test]
fn add_class_keeps_other_classes() {
    let added = add_class(Some("b  a b"), "c").unwrap();
    assert_eq!(split_classes(&added), vec!["b", "a", "c"]);
    let again = add_class(Some("b  a b"), "a").unwrap();
    assert_eq!(split_classes(&again), vec!["b", "a"]);
    assert_eq!(split_classes(&add_class(None, "x").unwrap()), vec!["x"]);
}

#[test]
fn remove_class_rewrites_attribute() {
    let new = remove_class(Some(" a  b a\tc "), "a").unwrap();
    assert_eq!(new, Some("b c".to_string()));
    let new = new.unwrap();
    assert_eq!(split_classes(&new), vec!["b", "c"]);
    assert_eq!(has_class(Some(&new), "a"), Ok(false));
    assert_eq!(remove_class(Some("x"), "x").unwrap(), Some(String::new()));
}
