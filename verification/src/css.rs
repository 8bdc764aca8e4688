//! Escaping text for use as a CSS identifier.
use vstd::prelude::*;
use crate::text::{chars_of, push_char};

verus! {

/// What `char::is_numeric` answers: whether `c` is in a Unicode numeric category
/// (`Nd`, `Nl` or `No`).
pub uninterp spec fn char_is_numeric(c: char) -> bool;

/// Whether `c` is numeric: the ASCII digits are (category `Nd`), the ASCII letters are
/// not, and other characters as the Unicode tables say.
pub open spec fn is_numeric_char(c: char) -> bool {
    if '0' <= c <= '9' {
        true
    } else if ('a' <= c <= 'z' || 'A' <= c <= 'Z') {
        false
    } else {
        char_is_numeric(c)
    }
}

/// `char::is_numeric`. Its answer is given by the Unicode tables of the standard library,
/// a function of `c` alone; its documentation counts the ASCII digits as numeric and the
/// ASCII letters as not.
#[verifier::external_body]
fn is_numeric(c: char) -> (r: bool)
    ensures
        r == char_is_numeric(c),
        r == is_numeric_char(c),
{
    c.is_numeric()
}

/// Control characters, the Unicode category `Cc` (`char::is_control`).
pub open spec fn is_control(c: char) -> bool {
    let u = c as u32;
    u <= 0x1F || (0x7F <= u && u <= 0x9F)
}

/// The characters that get a backslash in front of them:
/// ``!"#$%&'()*+,-./:;<=>?@[\]^`{|}~``.
pub open spec fn is_css_special(c: char) -> bool {
    ||| c == '!' || c == '"' || c == '#' || c == '$' || c == '%' || c == '&' || c == '\''
    ||| c == '(' || c == ')' || c == '*' || c == '+' || c == ',' || c == '-' || c == '.'
    ||| c == '/' || c == ':' || c == ';' || c == '<' || c == '=' || c == '>' || c == '?'
    ||| c == '@' || c == '[' || c == '\\' || c == ']' || c == '^' || c == '`' || c == '{'
    ||| c == '|' || c == '}' || c == '~'
}

/// Every character of the CSS punctuation ``!"#$%&'()*+,-./:;<=>?@[\]^`{|}~`` that is not
/// the first character of the text is written after a backslash: appended to a non-empty
/// text, it extends the escaped text by a backslash and itself.
pub proof fn law_css_punctuation_escaped(t: Seq<char>, c: char)
    requires
        "!\"#$%&'()*+,-./:;<=>?@[\\]^`{|}~"@.contains(c),
        t.len() > 0,
    ensures
        css_escape_char(c, false) == seq!['\\', c],
        css_escape(t.push(c)) == css_escape(t) + seq!['\\', c],
{
    reveal_strlit("!\"#$%&'()*+,-./:;<=>?@[\\]^`{|}~");
    let p = "!\"#$%&'()*+,-./:;<=>?@[\\]^`{|}~"@;
    let i = choose|i: int| 0 <= i < p.len() && p[i] == c;
    assert(0x21 <= (c as u32) <= 0x7E);
    assert(!is_control(c));
    assert(is_css_special(c));
    let s = t.push(c);
    assert(s.drop_last() == t);
    assert(s.last() == c);
}

/// The lowercase hexadecimal digit for `d < 16`.
pub open spec fn hex_digit(d: u32) -> char {
    if d == 0 {
        '0'
    } else if d == 1 {
        '1'
    } else if d == 2 {
        '2'
    } else if d == 3 {
        '3'
    } else if d == 4 {
        '4'
    } else if d == 5 {
        '5'
    } else if d == 6 {
        '6'
    } else if d == 7 {
        '7'
    } else if d == 8 {
        '8'
    } else if d == 9 {
        '9'
    } else if d == 10 {
        'a'
    } else if d == 11 {
        'b'
    } else if d == 12 {
        'c'
    } else if d == 13 {
        'd'
    } else if d == 14 {
        'e'
    } else {
        'f'
    }
}

/// A code point as six lowercase hexadecimal digits (`{:06x}`; every code point fits).
pub open spec fn hex6(u: u32) -> Seq<char> {
    seq![
        hex_digit((u / 0x100000) % 16),
        hex_digit((u / 0x10000) % 16),
        hex_digit((u / 0x1000) % 16),
        hex_digit((u / 0x100) % 16),
        hex_digit((u / 0x10) % 16),
        hex_digit(u % 16),
    ]
}

/// The value of a lowercase hexadecimal digit; `None` for any other character.
pub open spec fn hex_digit_value(c: char) -> Option<int> {
    if '0' <= c <= '9' {
        Some(c as int - 48)
    } else if 'a' <= c <= 'f' {
        Some(c as int - 87)
    } else {
        None
    }
}

proof fn lemma_hex_digit_value(d: u32)
    requires
        d < 16,
    ensures
        hex_digit_value(hex_digit(d)) == Some(d as int),
{
}

/// The six hexadecimal digits of an escaped code point read back as that code point: each
/// is a lowercase hexadecimal digit, the most significant first.
pub proof fn law_hex6_reads_back(u: u32)
    requires
        u <= 0x10FFFF,
    ensures
        hex6(u).len() == 6,
        forall|i: int| 0 <= i < 6 ==> (#[trigger] hex_digit_value(hex6(u)[i])) is Some,
        hex_digit_value(hex6(u)[0])->0 * 0x100000 + hex_digit_value(hex6(u)[1])->0 * 0x10000
            + hex_digit_value(hex6(u)[2])->0 * 0x1000 + hex_digit_value(hex6(u)[3])->0 * 0x100
            + hex_digit_value(hex6(u)[4])->0 * 0x10 + hex_digit_value(hex6(u)[5])->0 == u,
{
    lemma_hex_digit_value((u / 0x100000) % 16);
    lemma_hex_digit_value((u / 0x10000) % 16);
    lemma_hex_digit_value((u / 0x1000) % 16);
    lemma_hex_digit_value((u / 0x100) % 16);
    lemma_hex_digit_value((u / 0x10) % 16);
    lemma_hex_digit_value(u % 16);
    assert(((u / 0x100000) % 16) * 0x100000 + ((u / 0x10000) % 16) * 0x10000 + ((u / 0x1000) % 16)
        * 0x1000 + ((u / 0x100) % 16) * 0x100 + ((u / 0x10) % 16) * 0x10 + (u % 16) == u)
        by (bit_vector)
        requires
            u <= 0x10FFFF,
    ;
}

/// How one character is written: a leading digit or a control character as a backslash
/// and six hexadecimal digits, a special character after a backslash, any other as itself.
pub open spec fn css_escape_char(c: char, first: bool) -> Seq<char> {
    if (first && is_numeric_char(c)) || is_control(c) {
        seq!['\\'] + hex6(c as u32)
    } else if is_css_special(c) {
        seq!['\\', c]
    } else {
        seq![c]
    }
}

pub open spec fn css_escape(s: Seq<char>) -> Seq<char>
    decreases s.len(),
{
    if s.len() == 0 {
        Seq::empty()
    } else {
        css_escape(s.drop_last()) + css_escape_char(s.last(), s.len() == 1)
    }
}

fn hex_digit_exec(d: u32) -> (c: char)
    requires
        d < 16,
    ensures
        c == hex_digit(d),
{
    if d == 0 {
        '0'
    } else if d == 1 {
        '1'
    } else if d == 2 {
        '2'
    } else if d == 3 {
        '3'
    } else if d == 4 {
        '4'
    } else if d == 5 {
        '5'
    } else if d == 6 {
        '6'
    } else if d == 7 {
        '7'
    } else if d == 8 {
        '8'
    } else if d == 9 {
        '9'
    } else if d == 10 {
        'a'
    } else if d == 11 {
        'b'
    } else if d == 12 {
        'c'
    } else if d == 13 {
        'd'
    } else if d == 14 {
        'e'
    } else {
        'f'
    }
}

fn is_control_exec(c: char) -> (r: bool)
    ensures
        r == is_control(c),
{
    let u = c as u32;
    u <= 0x1F || (0x7F <= u && u <= 0x9F)
}

fn is_css_special_exec(c: char) -> (r: bool)
    ensures
        r == is_css_special(c),
{
    match c {
        '!' | '"' | '#' | '$' | '%' | '&' | '\'' | '(' | ')' | '*' | '+' | ',' | '-' | '.' | '/'
        | ':' | ';' | '<' | '=' | '>' | '?' | '@' | '[' | '\\' | ']' | '^' | '`' | '{' | '|'
        | '}' | '~' => true,
        _ => false,
    }
}

fn push_escaped(out: &mut String, c: char, first: bool)
    ensures
        final(out)@ == old(out)@ + css_escape_char(c, first),
{
    if (first && is_numeric(c)) || is_control_exec(c) {
        let u = c as u32;
        push_char(out, '\\');
        push_char(out, hex_digit_exec((u / 0x100000) % 16));
        push_char(out, hex_digit_exec((u / 0x10000) % 16));
        push_char(out, hex_digit_exec((u / 0x1000) % 16));
        push_char(out, hex_digit_exec((u / 0x100) % 16));
        push_char(out, hex_digit_exec((u / 0x10) % 16));
        push_char(out, hex_digit_exec(u % 16));
        assert(out@ == old(out)@ + css_escape_char(c, first));
    } else {
        if is_css_special_exec(c) {
            push_char(out, '\\');
        }
        push_char(out, c);
        assert(out@ == old(out)@ + css_escape_char(c, first));
    }
}

/// `text` escaped for use as a CSS identifier: a digit at the start and control characters
/// become `\` and six hexadecimal digits, CSS punctuation gets a `\` in front.
pub fn escape_css(text: &str) -> (out: String)
    ensures
        out@ == css_escape(text@),
{
    let chars = chars_of(text);
    let mut out = String::new();
    let mut i: usize = 0;
    while i < chars.len()
        invariant
            i <= chars.len(),
            chars@ == text@,
            out@ == css_escape(chars@.take(i as int)),
        decreases chars.len() - i,
    {
        assert(chars@.take(i + 1).drop_last() == chars@.take(i as int));
        push_escaped(&mut out, chars[i], i == 0);
        i = i + 1;
    }
    assert(chars@.take(chars.len() as int) == chars@);
    out
}

} // verus!
