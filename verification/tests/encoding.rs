use crabsoup::encoding::{choose_encoding, decode_encoding, decode_text, default_encoding, encode_text, name};

#[test]
fn labels() {
    assert_eq!(name(decode_encoding(b"latin1").unwrap()), "windows-1252");
    assert_eq!(name(decode_encoding(b"utf8").unwrap()), "UTF-8");
    assert!(decode_encoding(b"nope").is_err());
    assert_eq!(name(default_encoding()), "UTF-8");
    assert_eq!(name(choose_encoding(None, default_encoding()).unwrap()), "UTF-8");
    assert_eq!(name(choose_encoding(Some(b"ascii"), default_encoding()).unwrap()), "windows-1252");
}

#[test]
fn decode_and_encode() {
    let d = decode_text(default_encoding(), "héllo".as_bytes());
    assert_eq!(d.text, "héllo");
    assert!(!d.had_errors);
    let bad = decode_text(default_encoding(), &[0x61, 0xff]);
    assert_eq!(bad.text, "a\u{fffd}");
    assert!(bad.had_errors);
    let latin = decode_encoding(b"latin1").unwrap();
    let e = encode_text(latin, "é");
    assert_eq!(e.bytes, vec![0xe9]);
    assert!(!e.had_errors);
    let u = encode_text(latin, "\u{4e00}");
    assert!(u.had_errors);
}
