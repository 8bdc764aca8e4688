//! Turning titles into identifiers (slugs).
use vstd::prelude::*;
use crate::regex_lib::{regex_new_error, regex_replace_all, replace_all, RegexError};
use crate::text::{chars_of, string_of_range};

verus! {

/// `s` without `c` at its start.
pub open spec fn trim_start_char(s: Seq<char>, c: char) -> Seq<char>
    decreases s.len(),
{
    if s.len() > 0 && s[0] == c {
        trim_start_char(s.drop_first(), c)
    } else {
        s
    }
}

/// `s` without `c` at its end.
pub open spec fn trim_end_char(s: Seq<char>, c: char) -> Seq<char>
    decreases s.len(),
{
    if s.len() > 0 && s.last() == c {
        trim_end_char(s.drop_last(), c)
    } else {
        s
    }
}

/// `str::trim_matches(c)`.
pub open spec fn trim_matches(s: Seq<char>, c: char) -> Seq<char> {
    trim_end_char(trim_start_char(s, c), c)
}

proof fn lemma_trim_char_shape(s: Seq<char>, c: char)
    ensures
        exists|a: int, b: int| 0 <= a <= b <= s.len() && trim_matches(s, c) == s.subrange(a, b),
        trim_matches(s, c).len() > 0 ==> trim_matches(s, c)[0] != c && trim_matches(s, c).last() != c,
{
    lemma_trim_start_char_shape(s, c);
    let u = trim_start_char(s, c);
    lemma_trim_end_char_shape(u, c);
    let a = choose|a: int| 0 <= a <= s.len() && u == s.subrange(a, s.len() as int);
    let t = trim_end_char(u, c);
    assert(t == s.subrange(a, a + t.len()));
    if t.len() > 0 {
        assert(t[0] == u[0]);
    }
}

proof fn lemma_trim_start_char_shape(s: Seq<char>, c: char)
    ensures
        exists|a: int| 0 <= a <= s.len() && trim_start_char(s, c) == s.subrange(a, s.len() as int),
        trim_start_char(s, c).len() > 0 ==> trim_start_char(s, c)[0] != c,
    decreases s.len(),
{
    if s.len() > 0 && s[0] == c {
        lemma_trim_start_char_shape(s.drop_first(), c);
        let a = choose|a: int|
            0 <= a <= s.drop_first().len() && trim_start_char(s.drop_first(), c)
                == s.drop_first().subrange(a, s.drop_first().len() as int);
        assert(s.drop_first().subrange(a, s.drop_first().len() as int) == s.subrange(
            a + 1,
            s.len() as int,
        ));
    } else {
        assert(s.subrange(0, s.len() as int) == s);
    }
}

proof fn lemma_trim_end_char_shape(s: Seq<char>, c: char)
    ensures
        trim_end_char(s, c).len() <= s.len(),
        trim_end_char(s, c) == s.subrange(0, trim_end_char(s, c).len() as int),
        trim_end_char(s, c).len() > 0 ==> trim_end_char(s, c).last() != c,
    decreases s.len(),
{
    if s.len() > 0 && s.last() == c {
        lemma_trim_end_char_shape(s.drop_last(), c);
        assert(s.drop_last().subrange(0, trim_end_char(s, c).len() as int) == s.subrange(
            0,
            trim_end_char(s, c).len() as int,
        ));
    } else {
        assert(s.subrange(0, s.len() as int) == s);
    }
}

proof fn lemma_trim_start_char_skip(s: Seq<char>, c: char, i: int)
    requires
        0 <= i <= s.len(),
        forall|k: int| 0 <= k < i ==> #[trigger] s[k] == c,
    ensures
        trim_start_char(s, c) == trim_start_char(s.subrange(i, s.len() as int), c),
    decreases i,
{
    if i > 0 {
        assert(s[0] == c);
        lemma_trim_start_char_skip(s.drop_first(), c, i - 1);
        assert(s.drop_first().subrange(i - 1, s.drop_first().len() as int) == s.subrange(
            i,
            s.len() as int,
        ));
    } else {
        assert(s.subrange(0, s.len() as int) == s);
    }
}

proof fn lemma_trim_end_char_cut(s: Seq<char>, c: char, j: int)
    requires
        0 <= j <= s.len(),
        forall|k: int| j <= k < s.len() ==> #[trigger] s[k] == c,
    ensures
        trim_end_char(s, c) == trim_end_char(s.subrange(0, j), c),
    decreases s.len() - j,
{
    if j < s.len() {
        lemma_trim_end_char_cut(s.drop_last(), c, j);
        assert(s.drop_last().subrange(0, j) == s.subrange(0, j));
    } else {
        assert(s.subrange(0, j) == s);
    }
}

/// `String` of `v` with `c` removed from both ends.
fn trim_matches_exec(v: &Vec<char>, c: char) -> (s: String)
    ensures
        s@ == trim_matches(v@, c),
{
    let mut a: usize = 0;
    while a < v.len() && v[a] == c
        invariant
            a <= v.len(),
            forall|k: int| 0 <= k < a ==> #[trigger] v@[k] == c,
        decreases v.len() - a,
    {
        a = a + 1;
    }
    proof {
        lemma_trim_start_char_skip(v@, c, a as int);
        let rest = v@.subrange(a as int, v@.len() as int);
        if rest.len() > 0 {
            assert(rest[0] == v@[a as int]);
        }
    }
    let ghost mid = v@.subrange(a as int, v@.len() as int);
    let mut b: usize = v.len();
    while b > a && v[b - 1] == c
        invariant
            a <= b <= v.len(),
            mid == v@.subrange(a as int, v@.len() as int),
            forall|k: int| b <= k < v.len() ==> #[trigger] v@[k] == c,
        decreases b,
    {
        b = b - 1;
    }
    proof {
        assert forall|k: int| b - a <= k < mid.len() implies #[trigger] mid[k] == c by {
            assert(mid[k] == v@[a + k]);
        }
        lemma_trim_end_char_cut(mid, c, b - a);
        let kept = mid.subrange(0, b - a);
        assert(kept == v@.subrange(a as int, b as int));
        if kept.len() > 0 {
            assert(kept.last() == v@[b - 1]);
        }
    }
    string_of_range(v, a, b)
}

/// The pattern whose runs `slugify` replaces: Unicode separators and underscores.
pub open spec fn slug_pattern() -> Seq<char> {
    "[\\pZ_]+"@
}

/// The pattern whose runs `slugify_ascii` replaces: anything but ASCII letters and digits.
pub open spec fn ascii_slug_pattern() -> Seq<char> {
    "[^a-zA-Z0-9]+"@
}

/// The slug of `text`: each run of Unicode separators and underscores becomes one `_`
/// (`Regex::replace_all` with `[\pZ_]+`), and underscores at either end are removed, so a
/// slug neither begins nor ends with `_`. The error of the pattern, were it refused, is
/// passed on.
pub fn slugify(text: &str) -> (r: Result<String, RegexError>)
    ensures
        r is Err <==> regex_new_error(slug_pattern()) is Some,
        r matches Err(e) ==> Some(e.message@) == regex_new_error(slug_pattern()),
        r matches Ok(s) ==> s@ == trim_matches(regex_replace_all(slug_pattern(), text@, "_"@), '_'),
        r matches Ok(s) ==> (s@.len() > 0 ==> s@[0] != '_' && s@.last() != '_'),
{
    let replaced = replace_all(text, "[\\pZ_]+", "_")?;
    let chars = chars_of(replaced.as_str());
    let out = trim_matches_exec(&chars, '_');
    proof {
        lemma_trim_char_shape(chars@, '_');
    }
    Ok(out)
}

/// The ASCII slug of `text`: each run of characters other than ASCII letters and digits
/// becomes one `-` (`Regex::replace_all` with `[^a-zA-Z0-9]+`). The error of the pattern,
/// were it refused, is passed on.
pub fn slugify_ascii(text: &str) -> (r: Result<String, RegexError>)
    ensures
        r is Err <==> regex_new_error(ascii_slug_pattern()) is Some,
        r matches Err(e) ==> Some(e.message@) == regex_new_error(ascii_slug_pattern()),
        r matches Ok(s) ==> s@ == regex_replace_all(ascii_slug_pattern(), text@, "-"@),
{
    replace_all(text, "[^a-zA-Z0-9]+", "-")
}

/// The soft slug of `text`: each run of Unicode symbols (the regex class `\pS`) becomes
/// one `-`. The pattern is fixed and valid; the error of an invalid one is passed on.
pub fn slugify_soft(text: &str) -> (r: Result<String, RegexError>)
    ensures
        r is Err <==> regex_new_error("\\pS+"@) is Some,
        r matches Ok(s) ==> s@ == regex_replace_all("\\pS+"@, text@, "-"@),
{
    replace_all(text, "\\pS+", "-")
}

} // verus!
