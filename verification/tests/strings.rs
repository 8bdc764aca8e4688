use crabsoup::strings::{base64_decode, base64_encode, html_decode, html_encode, url_decode, url_encode};

#[test]
fn url_encoding() {
    assert_eq!(url_encode("a b&ü~-._"), "a%20b%26%C3%BC~-._");
    assert_eq!(url_decode("a%20b%zz%").unwrap(), "a b%zz%");
    assert_eq!(url_decode("%c3%bc+").unwrap(), "ü+");
    assert!(url_decode("%FF").is_err());
}

#[test]
fn url_roundtrip_law() {
    for s in ["", "héllo wörld", "100% /?&=", "\u{1F600}"] {
        assert_eq!(url_decode(&url_encode(s)).unwrap(), s);
    }
}

#[test]
fn html_encoding() {
    assert_eq!(html_encode("<a & b>\"'"), "&lt;a &amp; b&gt;\"'");
    assert_eq!(html_decode("&lt;&amp;&gt;&quot;&#65;"), "<&>\"A");
}

#[test]
fn base64_coding() {
    assert_eq!(base64_encode(b"hello"), "aGVsbG8=");
    assert_eq!(base64_encode(b""), "");
    assert_eq!(base64_decode(b"aGVsbG8=").unwrap(), b"hello".to_vec());
    assert!(base64_decode(b"!!").is_err());
}

#[test]
fn html_and_base64_round_trips() {
    for text in ["a < b && c > d", "&amp; stays &amp;", "plain", "", "&lt;&"] {
        assert_eq!(html_decode(&html_encode(text)), text);
    }
    for bytes in [&b""[..], b"f", b"fo", b"foo", b"\xFF\x00\xEC"] {
        assert_eq!(base64_decode(base64_encode(bytes).as_bytes()).unwrap(), bytes);
    }
}
