use crabsoup::paths::{
    basename, dirname, get_extension, get_extensions, has_extension, join_path, lstr_to_system_path,
    split_path, strip_all_extensions, strip_extension, system_path_to_path, PathError,
};

#[test]
fn basename_and_dirname() {
    assert_eq!(basename("a/b/c.txt"), Ok("c.txt".to_string()));
    assert_eq!(basename("a/b/"), Ok("b".to_string()));
    assert_eq!(basename("a/.."), Err(PathError::NoFileName));
    assert_eq!(basename("/"), Err(PathError::NoFileName));
    assert_eq!(dirname("a/b"), Ok("a".to_string()));
    assert_eq!(dirname("a"), Ok(String::new()));
    assert_eq!(dirname("/"), Err(PathError::NoParent));
}

#[test]
fn extensions() {
    assert_eq!(get_extension("a/b.tar.gz"), Some("gz".to_string()));
    assert_eq!(get_extension("a/.bashrc"), None);
    assert_eq!(strip_extension("a/b.tar.gz"), Ok("a/b.tar".to_string()));
    assert_eq!(strip_extension("a/b"), Ok("a/b".to_string()));
    assert_eq!(strip_extension("a/.."), Err(PathError::NoFileName));
    assert_eq!(get_extensions("x/a.tar.gz"), Ok(vec!["tar".to_string(), "gz".to_string()]));
    assert_eq!(get_extensions("x/a"), Ok(Vec::new()));
    assert_eq!(get_extensions(".."), Err(PathError::NoFileName));
    assert_eq!(has_extension("x/a.tar.gz", "tar"), Ok(true));
    assert_eq!(has_extension("x/a.tar.gz", "zip"), Ok(false));
    assert_eq!(strip_all_extensions("x/a.tar.gz"), Ok("x/a".to_string()));
    assert_eq!(strip_all_extensions("/"), Err(PathError::NoFileName));
}

#[test]
fn join_path_cases() {
    assert_eq!(join_path("a/b", "../c"), "a/c");
    assert_eq!(join_path("a", "../../d"), "../d");
    assert_eq!(join_path("a", "/etc/x"), "a/etc/x");
    assert_eq!(join_path("a", "./b"), "a/b");
    assert_eq!(join_path("a/b", ""), "a/b");
}

#[test]
fn split_path_cases() {
    assert_eq!(split_path("/tmp/foo.txt"), vec!["/".to_string(), "tmp".to_string(), "foo.txt".to_string()]);
    assert_eq!(split_path("a//b/"), vec!["a".to_string(), "b".to_string()]);
}

#[test]
fn system_paths() {
    assert_eq!(lstr_to_system_path("/abs"), Err(PathError::AbsolutePath));
    assert_eq!(lstr_to_system_path("rel/x"), Ok("rel/x".to_string()));
    assert_eq!(system_path_to_path(b"a/b"), Ok("a/b".to_string()));
    assert!(matches!(system_path_to_path(&[0xff]), Err(PathError::InvalidUtf8(_))));
}
