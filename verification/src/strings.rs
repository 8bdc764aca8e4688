//! Encodings of text: percent encoding for URLs, HTML text escaping, Base64.
use vstd::prelude::*;
use vstd::utf8::{decode_utf8, encode_utf8, is_ascii_chars, valid_utf8};
use base64::Engine;

verus! {

broadcast use vstd::utf8::encode_utf8_valid_utf8, vstd::utf8::encode_utf8_decode_utf8;

/// Bytes that percent encoding leaves as they are: ASCII letters, digits and `-._~`.
pub open spec fn is_unreserved(b: u8) -> bool {
    (48 <= b && b <= 57) || (65 <= b && b <= 90) || (97 <= b && b <= 122) || b == 45 || b == 46
        || b == 95 || b == 126
}

/// The uppercase hexadecimal digit of `d < 16`, as a byte.
pub open spec fn hex_upper(d: u8) -> u8 {
    if d < 10 {
        (48 + d) as u8
    } else {
        (55 + d) as u8
    }
}

/// The value of a hexadecimal digit, either case.
pub open spec fn hex_value(b: u8) -> Option<u8> {
    if 48 <= b && b <= 57 {
        Some((b - 48) as u8)
    } else if 65 <= b && b <= 70 {
        Some((b - 55) as u8)
    } else if 97 <= b && b <= 102 {
        Some((b - 87) as u8)
    } else {
        None
    }
}

/// Percent encoding of bytes: unreserved bytes stay, every other byte becomes `%` and two
/// uppercase hexadecimal digits.
pub open spec fn percent_encode(b: Seq<u8>) -> Seq<u8>
    decreases b.len(),
{
    if b.len() == 0 {
        Seq::empty()
    } else {
        (if is_unreserved(b[0]) {
            seq![b[0]]
        } else {
            seq![37u8, hex_upper(b[0] / 16), hex_upper(b[0] % 16)]
        }) + percent_encode(b.drop_first())
    }
}

/// Percent decoding of bytes: `%` and two hexadecimal digits become that byte, anything
/// else (a `%` without two digits after it too) stays as it is.
pub open spec fn percent_decode(b: Seq<u8>) -> Seq<u8>
    decreases b.len(),
{
    if b.len() == 0 {
        Seq::empty()
    } else if b[0] == 37 && b.len() >= 3 && hex_value(b[1]) is Some && hex_value(b[2]) is Some {
        seq![(hex_value(b[1]).unwrap() * 16 + hex_value(b[2]).unwrap()) as u8] + percent_decode(
            b.skip(3),
        )
    } else {
        seq![b[0]] + percent_decode(b.drop_first())
    }
}

/// The text of ASCII bytes.
pub open spec fn ascii_text(b: Seq<u8>) -> Seq<char> {
    b.map_values(|x: u8| x as char)
}

/// The percent encoding of a text's UTF-8 bytes.
pub open spec fn url_encode_spec(s: Seq<char>) -> Seq<char> {
    ascii_text(percent_encode(encode_utf8(s)))
}

/// Percent decoding of a text's UTF-8 bytes, when the result is valid UTF-8.
pub open spec fn url_decode_spec(s: Seq<char>) -> Option<Seq<char>> {
    let bytes = percent_decode(encode_utf8(s));
    if valid_utf8(bytes) {
        Some(decode_utf8(bytes))
    } else {
        None
    }
}

/// `&`, `<` and `>` written as the entities `&amp;`, `&lt;` and `&gt;`.
pub open spec fn html_encode_text_spec(s: Seq<char>) -> Seq<char>
    decreases s.len(),
{
    if s.len() == 0 {
        Seq::empty()
    } else {
        html_encode_text_spec(s.drop_last()) + if s.last() == '&' {
            "&amp;"@
        } else if s.last() == '<' {
            "&lt;"@
        } else if s.last() == '>' {
            "&gt;"@
        } else {
            seq![s.last()]
        }
    }
}

/// `html_escape::decode_html_entities`: named and numeric character references replaced by
/// their characters.
pub uninterp spec fn html_entities_decoded(s: Seq<char>) -> Seq<char>;

/// The standard Base64 encoding, with padding (`base64::engine::general_purpose::STANDARD`).
pub uninterp spec fn base64_encoded(b: Seq<u8>) -> Seq<char>;

/// Standard Base64 decoding of the bytes, if they are valid Base64.
pub uninterp spec fn base64_decoded(b: Seq<u8>) -> Option<Seq<u8>>;

/// A text that could not be decoded; the message of the decoder's error.
#[derive(Debug)]
pub struct DecodeError {
    pub message: String,
}

/// `urlencoding::encode`: every UTF-8 byte of the text but ASCII letters, digits and
/// `-._~` is written as `%` and two uppercase hexadecimal digits.
#[verifier::external_body]
fn percent_encode_text(s: &str) -> (r: String)
    ensures
        r@ == url_encode_spec(s@),
{
    urlencoding::encode(s).into_owned()
}

/// `urlencoding::decode`: `%` followed by two hexadecimal digits becomes that byte, all
/// else stays; the bytes must then be valid UTF-8.
#[verifier::external_body]
fn percent_decode_text(s: &str) -> (r: Result<String, String>)
    ensures
        r is Ok <==> url_decode_spec(s@) is Some,
        r matches Ok(t) ==> Some(t@) == url_decode_spec(s@),
{
    match urlencoding::decode(s) {
        Ok(t) => Ok(t.into_owned()),
        Err(e) => Err(e.to_string()),
    }
}

/// `html_escape::encode_text`: `&`, `<` and `>` escaped.
#[verifier::external_body]
fn encode_html_text(s: &str) -> (r: String)
    ensures
        r@ == html_encode_text_spec(s@),
{
    html_escape::encode_text(s).into_owned()
}

/// `html_escape::decode_html_entities`. It decodes every exact reference ending in `;`
/// (`&amp;`, `&lt;` and `&gt;` among them) and copies everything else, so the escaping of
/// `encode_text`, whose only `&` begin those three references, is undone.
#[verifier::external_body]
fn decode_html_text(s: &str) -> (r: String)
    ensures
        r@ == html_entities_decoded(s@),
        forall|t: Seq<char>| #[trigger] html_encode_text_spec(t) == s@ ==> r@ == t,
{
    html_escape::decode_html_entities(s).into_owned()
}

/// `Engine::encode` of the standard engine.
#[verifier::external_body]
fn standard_encode(b: &[u8]) -> (r: String)
    ensures
        r@ == base64_encoded(b@),
{
    base64::engine::general_purpose::STANDARD.encode(b)
}

/// `Engine::decode` of the standard engine. The engine writes canonical padding and no
/// trailing bits, which its decoding requires, so what it encoded decodes back (the
/// crate's tests `roundtrip_random_short_standard` and others check this).
#[verifier::external_body]
fn standard_decode(b: &[u8]) -> (r: Result<Vec<u8>, String>)
    ensures
        r is Ok <==> base64_decoded(b@) is Some,
        r matches Ok(v) ==> Some(v@) == base64_decoded(b@),
        forall|x: Seq<u8>| #[trigger] encode_utf8(base64_encoded(x)) == b@ ==> r is Ok && r->Ok_0@ == x,
{
    base64::engine::general_purpose::STANDARD.decode(b).map_err(|e| e.to_string())
}

/// The text percent-encoded for use in a URL.
pub fn url_encode(text: &str) -> (r: String)
    ensures
        r@ == url_encode_spec(text@),
{
    percent_encode_text(text)
}

/// A percent-encoded text decoded; an error when the bytes it stands for are not UTF-8.
pub fn url_decode(text: &str) -> (r: Result<String, DecodeError>)
    ensures
        r is Ok <==> url_decode_spec(text@) is Some,
        r matches Ok(t) ==> Some(t@) == url_decode_spec(text@),
{
    match percent_decode_text(text) {
        Ok(t) => Ok(t),
        Err(m) => Err(DecodeError { message: m }),
    }
}

/// Text escaped for use between HTML tags.
pub fn html_encode(text: &str) -> (r: String)
    ensures
        r@ == html_encode_text_spec(text@),
{
    encode_html_text(text)
}

/// HTML character references in the text replaced by their characters; text escaped by
/// `html_encode` comes back as it was.
pub fn html_decode(text: &str) -> (r: String)
    ensures
        r@ == html_entities_decoded(text@),
        forall|t: Seq<char>| #[trigger] html_encode_text_spec(t) == text@ ==> r@ == t,
{
    decode_html_text(text)
}

/// Bytes in standard Base64.
pub fn base64_encode(data: &[u8]) -> (r: String)
    ensures
        r@ == base64_encoded(data@),
{
    standard_encode(data)
}

/// Standard Base64 decoded; an error when the input is not valid Base64. The text that
/// `base64_encode` gives decodes back to its bytes.
pub fn base64_decode(data: &[u8]) -> (r: Result<Vec<u8>, DecodeError>)
    ensures
        r is Ok <==> base64_decoded(data@) is Some,
        r matches Ok(v) ==> Some(v@) == base64_decoded(data@),
        forall|x: Seq<u8>| #[trigger] encode_utf8(base64_encoded(x)) == data@ ==> r is Ok && r->Ok_0@ == x,
{
    match standard_decode(data) {
        Ok(v) => Ok(v),
        Err(m) => Err(DecodeError { message: m }),
    }
}

// ---------------------------------------------------------------------------
// Decoding what was encoded gives it back.
proof fn lemma_percent_roundtrip(b: Seq<u8>)
    ensures
        percent_decode(percent_encode(b)) == b,
    decreases b.len(),
{
    if b.len() > 0 {
        let x = b[0];
        let rest = percent_encode(b.drop_first());
        lemma_percent_roundtrip(b.drop_first());
        if is_unreserved(x) {
            let e = seq![x] + rest;
            assert(e[0] == x);
            assert(e.drop_first() == rest);
            assert(x != 37);
        } else {
            let hi = (x / 16) as u8;
            let lo = (x % 16) as u8;
            let e = seq![37u8, hex_upper(hi), hex_upper(lo)] + rest;
            assert(e[0] == 37u8 && e[1] == hex_upper(hi) && e[2] == hex_upper(lo));
            assert(hex_value(hex_upper(hi)) == Some(hi));
            assert(hex_value(hex_upper(lo)) == Some(lo));
            assert(e.skip(3) == rest);
            assert((hi * 16 + lo) as u8 == x);
        }
        assert(seq![x] + b.drop_first() == b);
    }
}

proof fn lemma_percent_encode_ascii(b: Seq<u8>)
    ensures
        forall|i: int| 0 <= i < percent_encode(b).len() ==> #[trigger] percent_encode(b)[i] < 128,
    decreases b.len(),
{
    if b.len() > 0 {
        lemma_percent_encode_ascii(b.drop_first());
        let x = b[0];
        let hi = (x / 16) as u8;
        let lo = (x % 16) as u8;
        let rest = percent_encode(b.drop_first());
        let p = if is_unreserved(x) {
            seq![x]
        } else {
            seq![37u8, hex_upper(hi), hex_upper(lo)]
        };
        assert forall|i: int| 0 <= i < (p + rest).len() implies #[trigger] (p + rest)[i] < 128 by {
            if i >= p.len() {
                assert((p + rest)[i] == rest[i - p.len()]);
            }
        }
    }
}

proof fn lemma_ascii_text_bytes(b: Seq<u8>)
    requires
        forall|i: int| 0 <= i < b.len() ==> #[trigger] b[i] < 128,
    ensures
        encode_utf8(ascii_text(b)) == b,
{
    let t = ascii_text(b);
    assert(is_ascii_chars(t)) by {
        assert forall|i: int| 0 <= i < t.len() implies '\0' <= #[trigger] t[i] <= '\u{7f}' by {
            assert(t[i] == b[i] as char);
        }
    }
    vstd::utf8::is_ascii_chars_encode_utf8(t);
    assert forall|i: int| 0 <= i < b.len() implies encode_utf8(t)[i] == b[i] by {
        assert(t[i] as u8 == b[i]);
    }
    assert(encode_utf8(t) == b);
}

/// Percent decoding undoes percent encoding: every text comes back from its URL encoding.
pub proof fn law_url_roundtrip(s: Seq<char>)
    ensures
        url_decode_spec(url_encode_spec(s)) == Some(s),
{
    let b = encode_utf8(s);
    lemma_percent_encode_ascii(b);
    lemma_ascii_text_bytes(percent_encode(b));
    lemma_percent_roundtrip(b);
}

} // verus!
