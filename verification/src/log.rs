//! Logging from scripts: the target a message is logged under, and the message text.
use vstd::prelude::*;
use crate::text::{opt_view, chars_of, eq_range, push_char, push_str, string_of_range, views};

verus! {

/// `s` without the prefix `p`, when it has it (`str::strip_prefix(p).unwrap_or(s)`).
pub open spec fn strip_prefix_or_keep(s: Seq<char>, p: Seq<char>) -> Seq<char> {
    if p.len() <= s.len() && s.take(p.len() as int) == p {
        s.skip(p.len() as int)
    } else {
        s
    }
}

/// `s` without the suffix `p`, when it has it.
pub open spec fn strip_suffix_or_keep(s: Seq<char>, p: Seq<char>) -> Seq<char> {
    if p.len() <= s.len() && s.skip(s.len() - p.len()) == p {
        s.take(s.len() - p.len())
    } else {
        s
    }
}

/// `str::replace(pat, rep)`: the occurrences of `pat`, found from left to right without
/// overlapping, replaced by `rep`.
pub open spec fn replace_spec(s: Seq<char>, pat: Seq<char>, rep: Seq<char>) -> Seq<char>
    recommends
        pat.len() > 0,
    decreases s.len(),
{
    if s.len() == 0 {
        s
    } else if pat.len() > 0 && pat.len() <= s.len() && s.take(pat.len() as int) == pat {
        rep + replace_spec(s.skip(pat.len() as int), pat, rep)
    } else {
        seq![s[0]] + replace_spec(s.drop_first(), pat, rep)
    }
}

/// Whether `pat` occurs in `s` starting at `k`.
pub open spec fn occurs_at(s: Seq<char>, pat: Seq<char>, k: int) -> bool {
    0 <= k && k + pat.len() <= s.len() && s.subrange(k, k + pat.len()) == pat
}

/// Replacing leaves a text in which the pattern does not occur as it is.
pub proof fn law_replace_without_pattern(s: Seq<char>, pat: Seq<char>, rep: Seq<char>)
    requires
        pat.len() > 0,
        forall|k: int| !occurs_at(s, pat, k),
    ensures
        replace_spec(s, pat, rep) == s,
    decreases s.len(),
{
    if s.len() > 0 {
        if pat.len() <= s.len() {
            assert(s.take(pat.len() as int) == s.subrange(0, pat.len() as int));
            assert(!occurs_at(s, pat, 0));
        }
        let t = s.drop_first();
        assert forall|k: int| !occurs_at(t, pat, k) by {
            if occurs_at(t, pat, k) {
                assert(t.subrange(k, k + pat.len()) == s.subrange(k + 1, k + 1 + pat.len()));
                assert(occurs_at(s, pat, k + 1));
            }
        }
        law_replace_without_pattern(t, pat, rep);
        assert(seq![s[0]] + t == s);
    }
}

/// Every occurrence is replaced, not just the first: where `a` holds no occurrence of the
/// pattern (not even one running into the pattern after it), the text `a`, the pattern,
/// then `b`, becomes the replaced `a`, the replacement, then the replaced `b`.
pub proof fn law_replace_splits(a: Seq<char>, b: Seq<char>, pat: Seq<char>, rep: Seq<char>)
    requires
        pat.len() > 0,
        forall|k: int| 0 <= k < a.len() ==> !occurs_at(a + pat, pat, k),
    ensures
        replace_spec(a + pat + b, pat, rep) == replace_spec(a, pat, rep) + rep + replace_spec(
            b,
            pat,
            rep,
        ),
    decreases a.len(),
{
    let s = a + pat + b;
    if a.len() == 0 {
        assert(s == pat + b);
        assert(s.take(pat.len() as int) == pat);
        assert(s.skip(pat.len() as int) == b);
        assert(replace_spec(a, pat, rep) == a);
        assert(a + rep == rep);
    } else {
        let ap = a + pat;
        assert(s.take(pat.len() as int) == ap.subrange(0, pat.len() as int));
        assert(!occurs_at(ap, pat, 0));
        assert(s[0] == a[0]);
        let a2 = a.drop_first();
        assert(s.drop_first() == a2 + pat + b);
        assert forall|k: int| 0 <= k < a2.len() implies !occurs_at(a2 + pat, pat, k) by {
            assert((a2 + pat).subrange(k, k + pat.len()) == ap.subrange(k + 1, k + 1 + pat.len()));
            assert(!occurs_at(ap, pat, k + 1));
        }
        law_replace_splits(a2, b, pat, rep);
        if pat.len() <= a.len() {
            assert(a.take(pat.len() as int) == ap.subrange(0, pat.len() as int));
        }
        assert(replace_spec(a, pat, rep) == seq![a[0]] + replace_spec(a2, pat, rep));
        let ra2 = replace_spec(a2, pat, rep);
        let rb = replace_spec(b, pat, rep);
        assert(seq![a[0]] + (ra2 + rep + rb) == (seq![a[0]] + ra2) + rep + rb);
    }
}

/// The target a script's message is logged under, from the name of the script's source:
/// for a file (`@path`) the path without `.lua`/`.luau` and with `.lua#`/`.luau#` shortened
/// to `#`; for other sources `<loadstring>`; without a source the runtime's own module.
pub open spec fn log_target_spec(source: Option<Seq<char>>) -> Seq<char> {
    match source {
        None => "crabsoup::libs::log"@,
        Some(s) => if s.len() > 0 && s[0] == '@' {
            let a = strip_prefix_or_keep(s, "@"@);
            let b = strip_suffix_or_keep(a, ".lua"@);
            let c = strip_suffix_or_keep(b, ".luau"@);
            let d = replace_spec(c, ".lua#"@, "#"@);
            replace_spec(d, ".luau#"@, "#"@)
        } else {
            "<loadstring>"@
        },
    }
}

/// Whether `s` holds no `.`.
pub open spec fn dot_free(s: Seq<char>) -> bool {
    forall|i: int| 0 <= i < s.len() ==> s[i] != '.'
}

proof fn lemma_no_dotted_pattern(s: Seq<char>, pat: Seq<char>)
    requires
        dot_free(s),
        pat.len() > 0,
        pat[0] == '.',
    ensures
        forall|k: int| !occurs_at(s, pat, k),
{
    assert forall|k: int| !occurs_at(s, pat, k) by {
        if occurs_at(s, pat, k) {
            assert(s.subrange(k, k + pat.len())[0] == s[k]);
        }
    }
}

proof fn lemma_no_dotted_suffix(s: Seq<char>, p: Seq<char>)
    requires
        dot_free(s),
        p.len() > 0,
        p[0] == '.',
    ensures
        strip_suffix_or_keep(s, p) == s,
{
    if p.len() <= s.len() && s.skip(s.len() - p.len()) == p {
        assert(s.skip(s.len() - p.len())[0] == s[s.len() - p.len()]);
    }
}

proof fn lemma_file_source(p: Seq<char>)
    ensures
        strip_prefix_or_keep(seq!['@'] + p, "@"@) == p,
        (seq!['@'] + p).len() > 0 && (seq!['@'] + p)[0] == '@',
{
    reveal_strlit("@");
    assert("@"@ == seq!['@']);
    assert((seq!['@'] + p).take(1) == seq!['@']);
    assert((seq!['@'] + p).skip(1) == p);
}

/// A file's path without dots is its own log target; `.lua` or `.luau` at its end is
/// dropped; and each `.lua#` inside becomes `#`, not only the first.
pub proof fn law_log_target_of_file(p: Seq<char>, q: Seq<char>)
    requires
        dot_free(p),
        dot_free(q),
    ensures
        log_target_spec(Some(seq!['@'] + p)) == p,
        log_target_spec(Some(seq!['@'] + (p + ".lua"@))) == p,
        log_target_spec(Some(seq!['@'] + (p + ".luau"@))) == p,
        log_target_spec(Some(seq!['@'] + (p + ".lua#"@ + q))) == p + "#"@ + q,
{
    reveal_strlit(".lua");
    reveal_strlit(".luau");
    reveal_strlit(".lua#");
    reveal_strlit(".luau#");
    reveal_strlit("#");
    let lua = ".lua"@;
    let luau = ".luau"@;
    let lua_h = ".lua#"@;
    let luau_h = ".luau#"@;
    let h = "#"@;
    // a plain path
    lemma_file_source(p);
    lemma_no_dotted_suffix(p, lua);
    lemma_no_dotted_suffix(p, luau);
    lemma_no_dotted_pattern(p, lua_h);
    law_replace_without_pattern(p, lua_h, h);
    lemma_no_dotted_pattern(p, luau_h);
    law_replace_without_pattern(p, luau_h, h);
    // `.lua` at the end
    let a1 = p + lua;
    lemma_file_source(a1);
    assert(a1.skip(a1.len() - 4) == lua);
    assert(a1.take(a1.len() - 4) == p);
    // `.luau` at the end
    let a2 = p + luau;
    lemma_file_source(a2);
    assert(a2.skip(a2.len() - 4)[0] == 'l');
    assert(a2.skip(a2.len() - 5) == luau);
    assert(a2.take(a2.len() - 5) == p);
    // `.lua#` inside
    let a3 = p + lua_h + q;
    lemma_file_source(a3);
    if q.len() == 0 {
        assert(a3.skip(a3.len() - 4)[0] == 'l');
        assert(a3.skip(a3.len() - 5)[4] == '#');
    } else if q.len() < 4 {
        assert(a3.skip(a3.len() - 4)[0] == a3[a3.len() - 4]);
        assert(a3[a3.len() - 4] != '.');
        assert(a3.skip(a3.len() - 5)[0] == a3[a3.len() - 5]);
        assert(a3[a3.len() - 5] != '.');
    } else {
        assert(a3.skip(a3.len() - 4)[0] == q[q.len() - 4]);
        if q.len() >= 5 {
            assert(a3.skip(a3.len() - 5)[0] == q[q.len() - 5]);
        } else {
            assert(a3.skip(a3.len() - 5)[0] == '#');
        }
    }
    assert(strip_suffix_or_keep(a3, lua) == a3);
    assert(strip_suffix_or_keep(a3, luau) == a3);
    assert forall|k: int| 0 <= k < p.len() implies !occurs_at(p + lua_h, lua_h, k) by {
        if occurs_at(p + lua_h, lua_h, k) {
            assert((p + lua_h).subrange(k, k + 5)[0] == p[k]);
        }
    }
    law_replace_splits(p, q, lua_h, h);
    lemma_no_dotted_pattern(q, lua_h);
    law_replace_without_pattern(q, lua_h, h);
    let d = p + h + q;
    assert(dot_free(d)) by {
        assert forall|i: int| 0 <= i < d.len() implies d[i] != '.' by {
            if i < p.len() {
                assert(d[i] == p[i]);
            } else if i == p.len() {
                assert(d[i] == '#');
            } else {
                assert(d[i] == q[i - p.len() - 1]);
            }
        }
    }
    lemma_no_dotted_pattern(d, luau_h);
    law_replace_without_pattern(d, luau_h, h);
}

fn strip_prefix_exec(s: &Vec<char>, p: &Vec<char>) -> (r: Vec<char>)
    ensures
        r@ == strip_prefix_or_keep(s@, p@),
{
    if p.len() <= s.len() && eq_range(p, s, 0, p.len()) {
        assert(s@.subrange(0, p.len() as int) == s@.take(p.len() as int));
        sub_vec(s, p.len(), s.len())
    } else {
        proof {
            if p.len() <= s.len() {
                assert(s@.subrange(0, p.len() as int) == s@.take(p.len() as int));
            }
        }
        sub_vec(s, 0, s.len())
    }
}

fn strip_suffix_exec(s: &Vec<char>, p: &Vec<char>) -> (r: Vec<char>)
    ensures
        r@ == strip_suffix_or_keep(s@, p@),
{
    if p.len() <= s.len() && eq_range(p, s, s.len() - p.len(), s.len()) {
        assert(s@.subrange(s.len() - p.len(), s.len() as int) == s@.skip(s.len() - p.len()));
        sub_vec(s, 0, s.len() - p.len())
    } else {
        proof {
            if p.len() <= s.len() {
                assert(s@.subrange(s.len() - p.len(), s.len() as int) == s@.skip(
                    s.len() - p.len(),
                ));
            }
        }
        sub_vec(s, 0, s.len())
    }
}

/// A copy of `v[lo..hi]`.
fn sub_vec(v: &Vec<char>, lo: usize, hi: usize) -> (r: Vec<char>)
    requires
        lo <= hi <= v.len(),
    ensures
        r@ == v@.subrange(lo as int, hi as int),
{
    let mut r: Vec<char> = Vec::new();
    let mut i = lo;
    while i < hi
        invariant
            lo <= i <= hi <= v.len(),
            r@ == v@.subrange(lo as int, i as int),
        decreases hi - i,
    {
        r.push(v[i]);
        assert(v@.subrange(lo as int, i + 1) == v@.subrange(lo as int, i as int).push(v@[i as int]));
        i = i + 1;
    }
    r
}

fn replace_exec(s: &Vec<char>, pat: &Vec<char>, rep: &Vec<char>) -> (r: Vec<char>)
    requires
        pat.len() > 0,
    ensures
        r@ == replace_spec(s@, pat@, rep@),
{
    let mut out: Vec<char> = Vec::new();
    let mut i: usize = 0;
    assert(s@.skip(0) == s@);
    while i < s.len()
        invariant
            i <= s.len(),
            pat.len() > 0,
            out@ + replace_spec(s@.skip(i as int), pat@, rep@) == replace_spec(s@, pat@, rep@),
        decreases s.len() - i,
    {
        let ghost rest = s@.skip(i as int);
        assert(rest[0] == s@[i as int]);
        if pat.len() <= s.len() - i && eq_range(pat, s, i, i + pat.len()) {
            assert(rest.take(pat.len() as int) == s@.subrange(i as int, i + pat.len()));
            assert(rest.skip(pat.len() as int) == s@.skip(i + pat.len()));
            let mut k: usize = 0;
            let ghost before = out@;
            while k < rep.len()
                invariant
                    k <= rep.len(),
                    out@ == before + rep@.take(k as int),
                decreases rep.len() - k,
            {
                out.push(rep[k]);
                assert(rep@.take(k + 1) == rep@.take(k as int).push(rep@[k as int]));
                k = k + 1;
            }
            assert(rep@.take(rep.len() as int) == rep@);
            assert(before + (rep@ + replace_spec(s@.skip(i + pat.len()), pat@, rep@)) == before
                + rep@ + replace_spec(s@.skip(i + pat.len()), pat@, rep@));
            i = i + pat.len();
        } else {
            proof {
                if pat.len() <= rest.len() {
                    assert(rest.take(pat.len() as int) == s@.subrange(i as int, i + pat.len()));
                }
            }
            assert(rest.drop_first() == s@.skip(i + 1));
            let ghost before = out@;
            out.push(s[i]);
            assert(before + (seq![s@[i as int]] + replace_spec(s@.skip(i + 1), pat@, rep@))
                == before.push(s@[i as int]) + replace_spec(s@.skip(i + 1), pat@, rep@));
            i = i + 1;
        }
    }
    assert(s@.skip(s.len() as int) == Seq::<char>::empty());
    out
}

/// The target a script's message is logged under (see `log_target_spec`).
pub fn log_target(source: Option<&str>) -> (r: String)
    ensures
        r@ == log_target_spec(opt_view(source)),
{
    match source {
        None => "crabsoup::libs::log".to_owned(),
        Some(s) => {
            let chars = chars_of(s);
            if chars.len() > 0 && chars[0] == '@' {
                let a = strip_prefix_exec(&chars, &chars_of("@"));
                let b = strip_suffix_exec(&a, &chars_of(".lua"));
                let c = strip_suffix_exec(&b, &chars_of(".luau"));
                let lua_hash = chars_of(".lua#");
                let luau_hash = chars_of(".luau#");
                let hash = chars_of("#");
                proof {
                    reveal_strlit(".lua#");
                    reveal_strlit(".luau#");
                }
                let d = replace_exec(&c, &lua_hash, &hash);
                let e = replace_exec(&d, &luau_hash, &hash);
                let r = string_of_range(&e, 0, e.len());
                assert(e@.subrange(0, e@.len() as int) == e@);
                r
            } else {
                "<loadstring>".to_owned()
            }
        },
    }
}

/// The message text of several values: their texts, with a tab in front of each one that
/// follows non-empty text.
pub open spec fn join_values_spec(values: Seq<Seq<char>>) -> Seq<char>
    decreases values.len(),
{
    if values.len() == 0 {
        Seq::empty()
    } else {
        let acc = join_values_spec(values.drop_last());
        (if acc.len() > 0 {
            acc.push('\t')
        } else {
            acc
        }) + values.last()
    }
}

/// The message text of several values (see `join_values_spec`).
pub fn value_to_str(values: &Vec<String>) -> (r: String)
    ensures
        r@ == join_values_spec(views(values@)),
{
    let mut out = String::new();
    let mut i: usize = 0;
    while i < values.len()
        invariant
            i <= values.len(),
            out@ == join_values_spec(views(values@).take(i as int)),
        decreases values.len() - i,
    {
        assert(views(values@).take(i + 1).drop_last() == views(values@).take(i as int));
        assert(views(values@).take(i + 1).last() == values@[i as int]@);
        if !out.as_str().is_empty() {
            push_char(&mut out, '\t');
        }
        push_str(&mut out, values[i].as_str());
        i = i + 1;
    }
    assert(views(values@).take(values.len() as int) == views(values@));
    out
}

} // verus!
