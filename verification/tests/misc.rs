use crabsoup::html::parse_as_document;
use crabsoup::sys::{time_to_num, try_time_to_num};
use crabsoup::wyhash::WyHashBuilder;
use std::hash::BuildHasher;
use std::time::{Duration, UNIX_EPOCH};

#[test]
fn epoch_seconds() {
    assert_eq!(time_to_num(UNIX_EPOCH), 0);
    assert_eq!(time_to_num(UNIX_EPOCH + Duration::from_millis(5999)), 5);
    assert_eq!(try_time_to_num(UNIX_EPOCH + Duration::from_secs(7)), Some(7));
    assert_eq!(try_time_to_num(UNIX_EPOCH - Duration::from_secs(1)), None);
}

#[test]
fn wyhash_is_deterministic() {
    let b = WyHashBuilder;
    assert_eq!(b.hash_one("abc"), WyHashBuilder.hash_one("abc"));
    assert_ne!(b.hash_one("abc"), b.hash_one("abd"));
    let mut set: std::collections::HashSet<&str, WyHashBuilder> = std::collections::HashSet::with_hasher(WyHashBuilder);
    set.insert("a");
    set.insert("a");
    assert_eq!(set.len(), 1);
}

#[test]
fn document_or_fragment() {
    assert!(parse_as_document(true, false, false));
    assert!(parse_as_document(false, false, true));
    assert!(!parse_as_document(false, false, false));
    assert!(!parse_as_document(false, true, true));
}
