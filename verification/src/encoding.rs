//! Character encodings of HTML documents, through `encoding_rs`.
use vstd::prelude::*;
use encoding_rs::Encoding;

verus! {

#[verifier::external_type_specification]
#[verifier::external_body]
pub struct ExEncoding(Encoding);

/// `Encoding::for_label`: the encoding a label (such as `utf-8` or `latin1`) names.
pub uninterp spec fn encoding_for_label(label: Seq<u8>) -> Option<Encoding>;

/// `Encoding::name`.
pub uninterp spec fn encoding_name(e: Encoding) -> Seq<char>;

/// `Encoding::decode`: the text, the encoding actually used (a byte order mark may choose
/// another), and whether malformed sequences were replaced.
pub uninterp spec fn decoded_with(e: Encoding, bytes: Seq<u8>) -> (Seq<char>, Encoding, bool);

/// `Encoding::encode`: the bytes, the encoding actually used (UTF-16 encodings write
/// UTF-8), and whether unmappable characters were replaced.
pub uninterp spec fn encoded_with(e: Encoding, text: Seq<char>) -> (Seq<u8>, Encoding, bool);

/// A label that names no encoding.
#[derive(Debug)]
pub struct UnknownEncoding;

/// Text decoded from bytes.
pub struct Decoded {
    pub text: String,
    pub encoding: &'static Encoding,
    pub had_errors: bool,
}

/// Text encoded into bytes.
pub struct Encoded {
    pub bytes: Vec<u8>,
    pub encoding: &'static Encoding,
    pub had_errors: bool,
}

#[verifier::external_body]
fn for_label(label: &[u8]) -> (r: Option<&'static Encoding>)
    ensures
        match r {
            Some(e) => encoding_for_label(label@) == Some(*e),
            None => encoding_for_label(label@) is None,
        },
{
    Encoding::for_label(label)
}

/// `encoding_rs::UTF_8`, whose name is `UTF-8`.
#[verifier::external_body]
fn utf8() -> (r: &'static Encoding)
    ensures
        encoding_name(*r) == "UTF-8"@,
{
    encoding_rs::UTF_8
}

#[verifier::external_body]
fn name_of(e: &'static Encoding) -> (r: String)
    ensures
        r@ == encoding_name(*e),
{
    e.name().to_string()
}

#[verifier::external_body]
fn decode_with(e: &'static Encoding, bytes: &[u8]) -> (r: Decoded)
    ensures
        (r.text@, *r.encoding, r.had_errors) == decoded_with(*e, bytes@),
{
    let (text, encoding, had_errors) = e.decode(bytes);
    Decoded { text: text.into_owned(), encoding, had_errors }
}

#[verifier::external_body]
fn encode_with(e: &'static Encoding, text: &str) -> (r: Encoded)
    ensures
        (r.bytes@, *r.encoding, r.had_errors) == encoded_with(*e, text@),
{
    let (bytes, encoding, had_errors) = e.encode(text);
    Encoded { bytes: bytes.into_owned(), encoding, had_errors }
}

/// The encoding that HTML documents are read and written in until a script chooses another.
pub fn default_encoding() -> (r: &'static Encoding)
    ensures
        encoding_name(*r) == "UTF-8"@,
{
    utf8()
}

/// The encoding a label names; an error for an unknown label.
pub fn decode_encoding(label: &[u8]) -> (r: Result<&'static Encoding, UnknownEncoding>)
    ensures
        r is Ok <==> encoding_for_label(label@) is Some,
        r matches Ok(e) ==> encoding_for_label(label@) == Some(*e),
{
    match for_label(label) {
        Some(e) => Ok(e),
        None => Err(UnknownEncoding),
    }
}

/// The encoding to use: the one a label names, or the active one when no label is given.
pub fn choose_encoding(label: Option<&[u8]>, active: &'static Encoding) -> (r: Result<
    &'static Encoding,
    UnknownEncoding,
>)
    ensures
        label is None ==> (r matches Ok(e) && *e == *active),
        label matches Some(l) ==> (r is Ok <==> encoding_for_label(l@) is Some) && (r matches Ok(
            e,
        ) ==> encoding_for_label(l@) == Some(*e)),
{
    match label {
        None => Ok(active),
        Some(l) => decode_encoding(l),
    }
}

/// The name of an encoding, as warnings show it.
pub fn name(e: &'static Encoding) -> (r: String)
    ensures
        r@ == encoding_name(*e),
{
    name_of(e)
}

/// Bytes decoded in an encoding.
pub fn decode_text(e: &'static Encoding, bytes: &[u8]) -> (r: Decoded)
    ensures
        (r.text@, *r.encoding, r.had_errors) == decoded_with(*e, bytes@),
{
    decode_with(e, bytes)
}

/// Text encoded in an encoding.
pub fn encode_text(e: &'static Encoding, text: &str) -> (r: Encoded)
    ensures
        (r.bytes@, *r.encoding, r.had_errors) == encoded_with(*e, text@),
{
    encode_with(e, text)
}

} // verus!
