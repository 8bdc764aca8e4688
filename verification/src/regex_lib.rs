//! Regular expressions, through the `regex` crate.
use vstd::prelude::*;

verus! {

/// A pattern that `regex::Regex::new` refused, with its message.
#[derive(Debug)]
pub struct RegexError {
    pub message: String,
}

/// The message of the error that `regex::Regex::new` gives for `pattern`, if it gives one.
pub uninterp spec fn regex_new_error(pattern: Seq<char>) -> Option<Seq<char>>;

/// `Regex::is_match` of the regex compiled from `pattern`, on `text`.
pub uninterp spec fn regex_is_match(pattern: Seq<char>, text: Seq<char>) -> bool;

/// The texts of `Regex::find_iter` of the regex compiled from `pattern`, on `text`.
pub uninterp spec fn regex_find_iter(pattern: Seq<char>, text: Seq<char>) -> Seq<Seq<char>>;

/// `Regex::replace` (the first match) of the regex compiled from `pattern`.
pub uninterp spec fn regex_replace(pattern: Seq<char>, text: Seq<char>, rep: Seq<char>) -> Seq<
    char,
>;

/// `Regex::replace_all` of the regex compiled from `pattern`.
pub uninterp spec fn regex_replace_all(pattern: Seq<char>, text: Seq<char>, rep: Seq<char>) -> Seq<
    char,
>;

/// `Regex::split` of the regex compiled from `pattern`, on `text`.
pub uninterp spec fn regex_split(pattern: Seq<char>, text: Seq<char>) -> Seq<Seq<char>>;

/// The characters that have a meaning in a pattern: the backslash and `.+*?()|[]{}^$#&-~`.
pub open spec fn is_meta_character(c: char) -> bool {
    c == '\\' || c == '.' || c == '+' || c == '*' || c == '?' || c == '(' || c == ')' || c == '|'
        || c == '[' || c == ']' || c == '{' || c == '}' || c == '^' || c == '$' || c == '#' || c
        == '&' || c == '-' || c == '~'
}

/// The text with a backslash put before each meta character.
pub open spec fn regex_escape(text: Seq<char>) -> Seq<char>
    decreases text.len(),
{
    if text.len() == 0 {
        Seq::empty()
    } else {
        regex_escape(text.drop_last()) + if is_meta_character(text.last()) {
            seq!['\\', text.last()]
        } else {
            seq![text.last()]
        }
    }
}

/// `Regex::new(pattern)` then `Regex::is_match(text)`: whether the pattern matches
/// somewhere in the text.
#[verifier::external_body]
fn new_and_is_match(pattern: &str, text: &str) -> (r: Result<bool, RegexError>)
    ensures
        r is Err <==> regex_new_error(pattern@) is Some,
        r matches Err(e) ==> Some(e.message@) == regex_new_error(pattern@),
        r matches Ok(b) ==> b == regex_is_match(pattern@, text@),
{
    match regex::Regex::new(pattern) {
        Ok(re) => Ok(re.is_match(text)),
        Err(e) => Err(RegexError { message: e.to_string() }),
    }
}

/// `Regex::new(pattern)` then `Regex::find_iter(text)`, each match as its text.
#[verifier::external_body]
fn new_and_find_iter(pattern: &str, text: &str) -> (r: Result<Vec<String>, RegexError>)
    ensures
        r is Err <==> regex_new_error(pattern@) is Some,
        r matches Err(e) ==> Some(e.message@) == regex_new_error(pattern@),
        r matches Ok(v) ==> v@.map_values(|s: String| s@) == regex_find_iter(pattern@, text@),
{
    match regex::Regex::new(pattern) {
        Ok(re) => Ok(re.find_iter(text).map(|m| m.as_str().to_string()).collect()),
        Err(e) => Err(RegexError { message: e.to_string() }),
    }
}

/// `Regex::new(pattern)` then `Regex::replace(text, rep)`.
#[verifier::external_body]
fn new_and_replace(pattern: &str, text: &str, rep: &str) -> (r: Result<String, RegexError>)
    ensures
        r is Err <==> regex_new_error(pattern@) is Some,
        r matches Err(e) ==> Some(e.message@) == regex_new_error(pattern@),
        r matches Ok(s) ==> s@ == regex_replace(pattern@, text@, rep@),
{
    match regex::Regex::new(pattern) {
        Ok(re) => Ok(re.replace(text, rep).into_owned()),
        Err(e) => Err(RegexError { message: e.to_string() }),
    }
}

/// `Regex::new(pattern)` then `Regex::replace_all(text, rep)`.
#[verifier::external_body]
fn new_and_replace_all(pattern: &str, text: &str, rep: &str) -> (r: Result<String, RegexError>)
    ensures
        r is Err <==> regex_new_error(pattern@) is Some,
        r matches Err(e) ==> Some(e.message@) == regex_new_error(pattern@),
        r matches Ok(s) ==> s@ == regex_replace_all(pattern@, text@, rep@),
{
    match regex::Regex::new(pattern) {
        Ok(re) => Ok(re.replace_all(text, rep).into_owned()),
        Err(e) => Err(RegexError { message: e.to_string() }),
    }
}

/// `Regex::new(pattern)` then `Regex::split(text)`.
#[verifier::external_body]
fn new_and_split(pattern: &str, text: &str) -> (r: Result<Vec<String>, RegexError>)
    ensures
        r is Err <==> regex_new_error(pattern@) is Some,
        r matches Err(e) ==> Some(e.message@) == regex_new_error(pattern@),
        r matches Ok(v) ==> v@.map_values(|s: String| s@) == regex_split(pattern@, text@),
{
    match regex::Regex::new(pattern) {
        Ok(re) => Ok(re.split(text).map(|s| s.to_string()).collect()),
        Err(e) => Err(RegexError { message: e.to_string() }),
    }
}

/// `regex::escape`: each character of the text, after a backslash where it is a meta
/// character (`regex_syntax::is_meta_character`).
#[verifier::external_body]
fn escape_text(text: &str) -> (r: String)
    ensures
        r@ == regex_escape(text@),
{
    regex::escape(text)
}

/// Whether `pattern` matches somewhere in `text`; an error when the pattern is invalid.
pub fn is_match(text: &str, pattern: &str) -> (r: Result<bool, RegexError>)
    ensures
        r is Err <==> regex_new_error(pattern@) is Some,
        r matches Err(e) ==> Some(e.message@) == regex_new_error(pattern@),
        r matches Ok(b) ==> b == regex_is_match(pattern@, text@),
{
    new_and_is_match(pattern, text)
}

/// The texts of all non-overlapping matches of `pattern` in `text`.
pub fn find_all(text: &str, pattern: &str) -> (r: Result<Vec<String>, RegexError>)
    ensures
        r is Err <==> regex_new_error(pattern@) is Some,
        r matches Err(e) ==> Some(e.message@) == regex_new_error(pattern@),
        r matches Ok(v) ==> v@.map_values(|s: String| s@) == regex_find_iter(pattern@, text@),
{
    new_and_find_iter(pattern, text)
}

/// `text` with the first match of `pattern` replaced.
pub fn replace(text: &str, pattern: &str, replacement: &str) -> (r: Result<String, RegexError>)
    ensures
        r is Err <==> regex_new_error(pattern@) is Some,
        r matches Err(e) ==> Some(e.message@) == regex_new_error(pattern@),
        r matches Ok(s) ==> s@ == regex_replace(pattern@, text@, replacement@),
{
    new_and_replace(pattern, text, replacement)
}

/// `text` with every match of `pattern` replaced.
pub fn replace_all(text: &str, pattern: &str, replacement: &str) -> (r: Result<
    String,
    RegexError,
>)
    ensures
        r is Err <==> regex_new_error(pattern@) is Some,
        r matches Err(e) ==> Some(e.message@) == regex_new_error(pattern@),
        r matches Ok(s) ==> s@ == regex_replace_all(pattern@, text@, replacement@),
{
    new_and_replace_all(pattern, text, replacement)
}

/// The parts of `text` between matches of `pattern`.
pub fn split(text: &str, pattern: &str) -> (r: Result<Vec<String>, RegexError>)
    ensures
        r is Err <==> regex_new_error(pattern@) is Some,
        r matches Err(e) ==> Some(e.message@) == regex_new_error(pattern@),
        r matches Ok(v) ==> v@.map_values(|s: String| s@) == regex_split(pattern@, text@),
{
    new_and_split(pattern, text)
}

/// `text` with every regex meta character escaped.
pub fn escape(text: &str) -> (r: String)
    ensures
        r@ == regex_escape(text@),
{
    escape_text(text)
}

} // verus!
