//! The `class` attribute of an HTML element, read as a list of class names.
use vstd::prelude::*;
use crate::text::{
    chars_eq, chars_of, contains_string, is_white_space, push_char, push_str, str_eq, string_of_range,
    trim, trim_bounds, trim_end, trim_start, views,
};

verus! {

/// The white space that separates class names in a selector or `class` attribute:
/// space, tab, line feed, carriage return and form feed.
pub open spec fn is_selector_white_space(c: char) -> bool {
    c == ' ' || c == '\t' || c == '\n' || c == '\r' || c == '\x0C'
}

pub fn selector_white_space(c: char) -> (r: bool)
    ensures
        r == is_selector_white_space(c),
{
    c == ' ' || c == '\t' || c == '\n' || c == '\r' || c == '\x0C'
}

/// The pieces of `s` between selector white space, empty pieces included
/// (`str::split` on the selector white space characters).
pub open spec fn split_pieces(s: Seq<char>) -> Seq<Seq<char>>
    decreases s.len(),
{
    if s.len() == 0 {
        seq![Seq::<char>::empty()]
    } else {
        let p = split_pieces(s.drop_last());
        if is_selector_white_space(s.last()) {
            p.push(Seq::<char>::empty())
        } else {
            p.update(p.len() - 1, p.last().push(s.last()))
        }
    }
}

/// One step of reading class names: the piece is trimmed and kept if it is not empty
/// and not already there.
pub open spec fn add_piece(classes: Seq<Seq<char>>, piece: Seq<char>) -> Seq<Seq<char>> {
    let t = trim(piece);
    if t.len() > 0 && !classes.contains(t) {
        classes.push(t)
    } else {
        classes
    }
}

pub open spec fn classes_of_pieces(ps: Seq<Seq<char>>) -> Seq<Seq<char>>
    decreases ps.len(),
{
    if ps.len() == 0 {
        Seq::empty()
    } else {
        add_piece(classes_of_pieces(ps.drop_last()), ps.last())
    }
}

/// The class names of a `class` attribute: its pieces, trimmed, without empty ones,
/// each kept at its first occurrence.
pub open spec fn class_list(s: Seq<char>) -> Seq<Seq<char>> {
    classes_of_pieces(split_pieces(s))
}

/// A name that `add_class`, `has_class` and `remove_class` accept.
pub open spec fn valid_class_name(n: Seq<char>) -> bool {
    &&& forall|i: int| 0 <= i < n.len() ==> !is_selector_white_space(#[trigger] n[i])
    &&& trim(n) == n
}

/// The `class` attribute after `add_class`.
pub open spec fn added_classes(classes: Option<Seq<char>>, name: Seq<char>) -> Seq<char> {
    match classes {
        None => name,
        Some(c) => if class_list(c).contains(name) {
            c
        } else {
            c + seq![' '] + name
        },
    }
}

/// The names joined with single spaces.
pub open spec fn join_space(ps: Seq<Seq<char>>) -> Seq<char>
    decreases ps.len(),
{
    if ps.len() == 0 {
        Seq::empty()
    } else if ps.len() == 1 {
        ps[0]
    } else {
        join_space(ps.drop_last()) + seq![' '] + ps.last()
    }
}

/// `ps` without the elements equal to `n`.
pub open spec fn without(ps: Seq<Seq<char>>, n: Seq<char>) -> Seq<Seq<char>>
    decreases ps.len(),
{
    if ps.len() == 0 {
        Seq::empty()
    } else if ps.last() == n {
        without(ps.drop_last(), n)
    } else {
        without(ps.drop_last(), n).push(ps.last())
    }
}

/// The `class` attribute after `remove_class` took `name` out of `c`.
pub open spec fn removed_classes(c: Seq<char>, name: Seq<char>) -> Seq<char> {
    join_space(without(class_list(c), name))
}

/// A class name was refused.
#[derive(Debug, Clone, Copy, PartialEq, Eq, Structural)]
pub enum ClassError {
    /// The name holds selector white space or begins or ends with white space.
    InvalidClassName,
}

proof fn lemma_split_len(s: Seq<char>)
    ensures
        split_pieces(s).len() >= 1,
    decreases s.len(),
{
    if s.len() > 0 {
        lemma_split_len(s.drop_last());
    }
}

/// No piece holds selector white space.
pub proof fn lemma_split_no_sep(s: Seq<char>)
    ensures
        forall|i: int, j: int|
            0 <= i < split_pieces(s).len() && 0 <= j < split_pieces(s)[i].len()
                ==> !is_selector_white_space(#[trigger] split_pieces(s)[i][j]),
    decreases s.len(),
{
    if s.len() > 0 {
        lemma_split_no_sep(s.drop_last());
        lemma_split_len(s.drop_last());
        let p = split_pieces(s.drop_last());
        if !is_selector_white_space(s.last()) {
            let q = p.update(p.len() - 1, p.last().push(s.last()));
            assert forall|i: int, j: int| 0 <= i < q.len() && 0 <= j < q[i].len() implies
                !is_selector_white_space(#[trigger] q[i][j]) by {
                if i == p.len() - 1 && j == p.last().len() {
                } else if i == p.len() - 1 {
                    assert(q[i][j] == p[i][j]);
                }
            }
        } else {
            let q = p.push(Seq::<char>::empty());
            assert forall|i: int, j: int| 0 <= i < q.len() && 0 <= j < q[i].len() implies
                !is_selector_white_space(#[trigger] q[i][j]) by {
                assert(q[i] == p[i]);
            }
        }
    }
}

/// A text without selector white space is a single piece.
pub proof fn lemma_split_single(n: Seq<char>)
    requires
        forall|i: int| 0 <= i < n.len() ==> !is_selector_white_space(#[trigger] n[i]),
    ensures
        split_pieces(n) == seq![n],
    decreases n.len(),
{
    if n.len() > 0 {
        lemma_split_single(n.drop_last());
        assert(!is_selector_white_space(n[n.len() - 1]));
        assert(n.drop_last().push(n.last()) == n);
        assert(seq![n.drop_last()].update(0, n.drop_last().push(n.last())) == seq![n]);
    } else {
        assert(n == Seq::<char>::empty());
    }
}

/// Splitting at a separator splits the pieces.
pub proof fn lemma_split_concat(a: Seq<char>, b: Seq<char>)
    ensures
        split_pieces(a + seq![' '] + b) == split_pieces(a) + split_pieces(b),
    decreases b.len(),
{
    let x = a + seq![' '] + b;
    if b.len() == 0 {
        assert(x == a.push(' '));
        assert(x.drop_last() == a);
    } else {
        assert(x.drop_last() == a + seq![' '] + b.drop_last());
        lemma_split_concat(a, b.drop_last());
        lemma_split_len(b.drop_last());
        lemma_split_len(a);
        let p = split_pieces(a);
        let q = split_pieces(b.drop_last());
        if !is_selector_white_space(b.last()) {
            assert((p + q).update((p + q).len() - 1, (p + q).last().push(b.last())) == p + q.update(
                q.len() - 1,
                q.last().push(b.last()),
            ));
        } else {
            assert((p + q).push(Seq::<char>::empty()) == p + q.push(Seq::<char>::empty()));
        }
    }
}

/// What the class list holds.
pub proof fn lemma_classes_contains(ps: Seq<Seq<char>>, t: Seq<char>)
    ensures
        classes_of_pieces(ps).contains(t) <==> (t.len() > 0 && exists|i: int|
            0 <= i < ps.len() && #[trigger] trim(ps[i]) == t),
    decreases ps.len(),
{
    if ps.len() > 0 {
        let pre = ps.drop_last();
        lemma_classes_contains(pre, t);
        let c = classes_of_pieces(pre);
        let r = classes_of_pieces(ps);
        if r.contains(t) {
            if !c.contains(t) {
                assert(r == c.push(trim(ps.last())));
                let k = choose|k: int| 0 <= k < r.len() && r[k] == t;
                assert(k == c.len());
                assert(trim(ps[ps.len() - 1]) == t);
            } else {
                let i = choose|i: int| 0 <= i < pre.len() && #[trigger] trim(pre[i]) == t;
                assert(trim(ps[i]) == t);
            }
        }
        if t.len() > 0 && exists|i: int| 0 <= i < ps.len() && #[trigger] trim(ps[i]) == t {
            let i = choose|i: int| 0 <= i < ps.len() && #[trigger] trim(ps[i]) == t;
            if i < ps.len() - 1 {
                assert(trim(pre[i]) == t);
                let k = choose|k: int| 0 <= k < c.len() && c[k] == t;
                if r != c {
                    assert(r[k] == t);
                }
            } else {
                if !c.contains(t) {
                    assert(r[c.len() as int] == t);
                }
            }
        }
    }
}

pub proof fn lemma_trim_start_shape(s: Seq<char>)
    ensures
        trim_start(s).len() == 0 || !is_white_space(trim_start(s)[0]),
        exists|i: int| 0 <= i <= s.len() && trim_start(s) == s.subrange(i, s.len() as int),
    decreases s.len(),
{
    if s.len() > 0 && is_white_space(s[0]) {
        lemma_trim_start_shape(s.drop_first());
        let i = choose|i: int|
            0 <= i <= s.drop_first().len() && trim_start(s.drop_first()) == s.drop_first().subrange(
                i,
                s.drop_first().len() as int,
            );
        assert(s.drop_first().subrange(i, s.drop_first().len() as int) == s.subrange(
            i + 1,
            s.len() as int,
        ));
    } else {
        assert(s.subrange(0, s.len() as int) == s);
    }
}

pub proof fn lemma_trim_end_shape(s: Seq<char>)
    ensures
        trim_end(s).len() == 0 || !is_white_space(trim_end(s).last()),
        trim_end(s).len() <= s.len(),
        trim_end(s) == s.subrange(0, trim_end(s).len() as int),
    decreases s.len(),
{
    if s.len() > 0 && is_white_space(s.last()) {
        lemma_trim_end_shape(s.drop_last());
        assert(s.drop_last().subrange(0, trim_end(s).len() as int) == s.subrange(
            0,
            trim_end(s).len() as int,
        ));
    } else {
        assert(s.subrange(0, s.len() as int) == s);
    }
}

/// A trimmed text is its own trim, and it is a part of the text it came from.
pub proof fn lemma_trim_trimmed(p: Seq<char>)
    ensures
        trim(trim(p)) == trim(p),
        exists|a: int, b: int| 0 <= a <= b <= p.len() && trim(p) == p.subrange(a, b),
{
    let u = trim_start(p);
    let t = trim_end(u);
    lemma_trim_start_shape(p);
    lemma_trim_end_shape(u);
    let i = choose|i: int| 0 <= i <= p.len() && u == p.subrange(i, p.len() as int);
    assert(t == p.subrange(i, i + t.len()));
    if t.len() > 0 {
        assert(t[0] == u[0]);
        assert(trim_start(t) == t);
        assert(trim_end(t) == t);
    }
}

/// Each name in the class list is not empty, holds no selector white space, is its own
/// trim, and occurs once.
pub proof fn lemma_class_list_shape(s: Seq<char>)
    ensures
        class_list(s).no_duplicates(),
        forall|i: int|
            0 <= i < class_list(s).len() ==> {
                &&& (#[trigger] class_list(s)[i]).len() > 0
                &&& valid_class_name(class_list(s)[i])
            },
{
    lemma_split_no_sep(s);
    lemma_classes_shape(split_pieces(s));
}

proof fn lemma_classes_shape(ps: Seq<Seq<char>>)
    requires
        forall|i: int, j: int|
            0 <= i < ps.len() && 0 <= j < ps[i].len() ==> !is_selector_white_space(
                #[trigger] ps[i][j],
            ),
    ensures
        classes_of_pieces(ps).no_duplicates(),
        forall|i: int|
            0 <= i < classes_of_pieces(ps).len() ==> {
                &&& (#[trigger] classes_of_pieces(ps)[i]).len() > 0
                &&& valid_class_name(classes_of_pieces(ps)[i])
            },
    decreases ps.len(),
{
    if ps.len() > 0 {
        let pre = ps.drop_last();
        assert forall|i: int, j: int|
            0 <= i < pre.len() && 0 <= j < pre[i].len() implies !is_selector_white_space(
                #[trigger] pre[i][j],
            ) by {
            assert(pre[i] == ps[i]);
        }
        lemma_classes_shape(pre);
        let c = classes_of_pieces(pre);
        let p = ps.last();
        let t = trim(p);
        lemma_trim_trimmed(p);
        if t.len() > 0 && !c.contains(t) {
            let (a, b) = choose|a: int, b: int| 0 <= a <= b <= p.len() && t == p.subrange(a, b);
            assert forall|j: int| 0 <= j < t.len() implies !is_selector_white_space(
                #[trigger] t[j],
            ) by {
                assert(t[j] == ps[ps.len() - 1][a + j]);
            }
            let r = c.push(t);
            assert forall|i: int, j: int| 0 <= i < r.len() && 0 <= j < r.len() && i != j implies r[i]
                != r[j] by {
                if i == c.len() {
                    assert(c[j] == r[j]);
                } else if j == c.len() {
                    assert(c[i] == r[i]);
                }
            }
            assert forall|i: int| 0 <= i < r.len() implies {
                &&& (#[trigger] r[i]).len() > 0
                &&& valid_class_name(r[i])
            } by {
                if i < c.len() {
                    assert(r[i] == c[i]);
                }
            }
        }
    }
}

/// `classes_of_pieces` leaves a list of distinct trimmed names as it is.
proof fn lemma_classes_of_clean(ps: Seq<Seq<char>>)
    requires
        ps.no_duplicates(),
        forall|i: int| 0 <= i < ps.len() ==> (#[trigger] ps[i]).len() > 0 && trim(ps[i]) == ps[i],
    ensures
        classes_of_pieces(ps) == ps,
    decreases ps.len(),
{
    if ps.len() > 0 {
        let pre = ps.drop_last();
        assert forall|i: int| 0 <= i < pre.len() implies (#[trigger] pre[i]).len() > 0 && trim(
            pre[i],
        ) == pre[i] by {
            assert(pre[i] == ps[i]);
        }
        lemma_classes_of_clean(pre);
        assert(trim(ps[ps.len() - 1]) == ps.last());
        if pre.contains(ps.last()) {
            let k = choose|k: int| 0 <= k < pre.len() && pre[k] == ps.last();
            assert(ps[k] == ps[ps.len() - 1]);
        }
        assert(pre.push(ps.last()) == ps);
    }
}

/// Joining names without separators and splitting again gives the names back.
proof fn lemma_split_join(ps: Seq<Seq<char>>)
    requires
        ps.len() > 0,
        forall|i: int, j: int|
            0 <= i < ps.len() && 0 <= j < ps[i].len() ==> !is_selector_white_space(
                #[trigger] ps[i][j],
            ),
    ensures
        split_pieces(join_space(ps)) == ps,
    decreases ps.len(),
{
    if ps.len() == 1 {
        lemma_split_single(ps[0]);
        assert(seq![ps[0]] == ps);
    } else {
        let pre = ps.drop_last();
        assert forall|i: int, j: int|
            0 <= i < pre.len() && 0 <= j < pre[i].len() implies !is_selector_white_space(
                #[trigger] pre[i][j],
            ) by {
            assert(pre[i] == ps[i]);
        }
        lemma_split_join(pre);
        lemma_split_concat(join_space(pre), ps.last());
        assert forall|j: int| 0 <= j < ps.last().len() implies !is_selector_white_space(
            #[trigger] ps.last()[j],
        ) by {
            assert(ps.last()[j] == ps[ps.len() - 1][j]);
        }
        lemma_split_single(ps.last());
        assert(pre + seq![ps.last()] == ps);
    }
}

proof fn lemma_without_shape(ps: Seq<Seq<char>>, n: Seq<char>)
    requires
        ps.no_duplicates(),
    ensures
        without(ps, n).no_duplicates(),
        !without(ps, n).contains(n),
        forall|i: int|
            0 <= i < without(ps, n).len() ==> ps.contains(#[trigger] without(ps, n)[i]),
    decreases ps.len(),
{
    if ps.len() > 0 {
        let pre = ps.drop_last();
        assert forall|i: int, j: int| 0 <= i < pre.len() && 0 <= j < pre.len() && i != j implies pre[i]
            != pre[j] by {
            assert(pre[i] == ps[i] && pre[j] == ps[j]);
        }
        lemma_without_shape(pre, n);
        let w = without(pre, n);
        assert forall|i: int| 0 <= i < w.len() implies ps.contains(#[trigger] w[i]) by {
            let k = choose|k: int| 0 <= k < pre.len() && pre[k] == w[i];
            assert(ps[k] == w[i]);
        }
        if ps.last() != n {
            let r = w.push(ps.last());
            assert(!pre.contains(ps.last())) by {
                if pre.contains(ps.last()) {
                    let k = choose|k: int| 0 <= k < pre.len() && pre[k] == ps.last();
                    assert(ps[k] == ps[ps.len() - 1]);
                }
            }
            assert forall|i: int, j: int| 0 <= i < r.len() && 0 <= j < r.len() && i != j implies r[i]
                != r[j] by {
                if i == w.len() {
                    assert(pre.contains(r[j]));
                } else if j == w.len() {
                    assert(pre.contains(r[i]));
                }
            }
            assert forall|i: int| 0 <= i < r.len() implies ps.contains(#[trigger] r[i]) by {
                if i < w.len() {
                    assert(r[i] == w[i]);
                } else {
                    assert(ps[ps.len() - 1] == r[i]);
                }
            }
            if r.contains(n) {
                let k = choose|k: int| 0 <= k < r.len() && r[k] == n;
                assert(k < w.len());
                assert(w[k] == n);
            }
        }
    }
}

// ---------------------------------------------------------------------------
// Executable functions
/// The class names of a `class` attribute, in order of first occurrence, each trimmed,
/// without empty ones and without repeats.
pub fn split_classes(input: &str) -> (out: Vec<String>)
    ensures
        views(out@) == class_list(input@),
{
    let chars = chars_of(input);
    let mut out: Vec<String> = Vec::new();
    let ghost mut done: Seq<Seq<char>> = Seq::empty();
    let mut start: usize = 0;
    let mut i: usize = 0;
    assert(chars@.take(0) == Seq::<char>::empty());
    assert(chars@.subrange(0, 0) == Seq::<char>::empty());
    while i < chars.len()
        invariant
            start <= i <= chars.len(),
            chars@ == input@,
            split_pieces(chars@.take(i as int)) == done.push(chars@.subrange(start as int, i as int)),
            views(out@) == classes_of_pieces(done),
        decreases chars.len() - i,
    {
        let c = chars[i];
        assert(chars@.take(i + 1).drop_last() == chars@.take(i as int));
        if selector_white_space(c) {
            let ghost piece = chars@.subrange(start as int, i as int);
            add_piece_exec(&chars, start, i, &mut out, Ghost(done));
            proof {
                done = done.push(piece);
                assert(chars@.subrange(i + 1, i + 1) == Seq::<char>::empty());
            }
            start = i + 1;
        } else {
            assert(chars@.subrange(start as int, i + 1) == chars@.subrange(
                start as int,
                i as int,
            ).push(c));
        }
        i = i + 1;
    }
    add_piece_exec(&chars, start, i, &mut out, Ghost(done));
    proof {
        let last = done.push(chars@.subrange(start as int, i as int));
        assert(chars@.take(i as int) == chars@);
        assert(last.drop_last() == done);
    }
    out
}

/// Read `chars[lo..hi]` as one piece of the attribute.
fn add_piece_exec(
    chars: &Vec<char>,
    lo: usize,
    hi: usize,
    out: &mut Vec<String>,
    Ghost(done): Ghost<Seq<Seq<char>>>,
)
    requires
        lo <= hi <= chars.len(),
        views(old(out)@) == classes_of_pieces(done),
    ensures
        views(final(out)@) == classes_of_pieces(done.push(chars@.subrange(lo as int, hi as int))),
{
    let (a, b) = trim_bounds(chars, lo, hi);
    let ghost piece = chars@.subrange(lo as int, hi as int);
    assert(done.push(piece).drop_last() == done);
    if a < b {
        let t = string_of_range(chars, a, b);
        if !contains_string(out, &t) {
            out.push(t);
            assert(views(out@) == views(old(out)@).push(t@));
        }
    }
}

/// Whether `name` may be used as a class name: it holds no selector white space and does
/// not begin or end with white space.
pub fn check_class_name(name: &str) -> (r: Result<(), ClassError>)
    ensures
        r is Ok <==> valid_class_name(name@),
{
    let chars = chars_of(name);
    let mut i: usize = 0;
    while i < chars.len()
        invariant
            i <= chars.len(),
            chars@ == name@,
            forall|k: int| 0 <= k < i ==> !is_selector_white_space(#[trigger] chars@[k]),
        decreases chars.len() - i,
    {
        if selector_white_space(chars[i]) {
            return Err(ClassError::InvalidClassName);
        }
        i = i + 1;
    }
    let (a, b) = trim_bounds(&chars, 0, chars.len());
    assert(chars@.subrange(0, chars@.len() as int) == chars@);
    if a == 0 && b == chars.len() {
        Ok(())
    } else {
        assert(chars@.subrange(a as int, b as int).len() != chars@.len());
        Err(ClassError::InvalidClassName)
    }
}

/// Whether the element whose `class` attribute is `classes` has the class `name`.
/// Without a `class` attribute the answer is `false` and the name is not checked.
pub fn has_class(classes: Option<&str>, name: &str) -> (r: Result<bool, ClassError>)
    ensures
        classes is None ==> r == Ok::<bool, ClassError>(false),
        classes is Some ==> (r is Err <==> !valid_class_name(name@)),
        classes is Some ==> (r matches Ok(b) ==> b == class_list(classes.unwrap()@).contains(name@)),
        r matches Err(e) ==> e == ClassError::InvalidClassName,
{
    match classes {
        None => Ok(false),
        Some(c) => {
            check_class_name(name)?;
            let list = split_classes(c);
            let n = name.to_owned();
            Ok(contains_string(&list, &n))
        },
    }
}

/// The `class` attribute after the class `name` was added: the name is appended after a
/// space unless it is already there; without a `class` attribute the name alone.
pub fn add_class(classes: Option<&str>, name: &str) -> (r: Result<String, ClassError>)
    ensures
        r is Err <==> !valid_class_name(name@),
        r matches Ok(s) ==> s@ == added_classes(
            match classes {
                Some(c) => Some(c@),
                None => None,
            },
            name@,
        ),
        r matches Err(e) ==> e == ClassError::InvalidClassName,
{
    check_class_name(name)?;
    match classes {
        None => Ok(name.to_owned()),
        Some(c) => {
            let list = split_classes(c);
            let n = name.to_owned();
            if contains_string(&list, &n) {
                Ok(c.to_owned())
            } else {
                let mut s = c.to_owned();
                push_char(&mut s, ' ');
                push_str(&mut s, name);
                Ok(s)
            }
        },
    }
}

/// The `class` attribute after the class `name` was removed: the remaining class names
/// joined with single spaces, given whenever there is a `class` attribute and the name is
/// valid. Without a `class` attribute nothing changes (`None`) and the name is not checked.
pub fn remove_class(classes: Option<&str>, name: &str) -> (r: Result<Option<String>, ClassError>)
    ensures
        classes is None ==> r == Ok::<Option<String>, ClassError>(None),
        classes is Some ==> (r is Err <==> !valid_class_name(name@)),
        classes is Some && valid_class_name(name@) ==> r is Ok && r->Ok_0 is Some,
        r matches Ok(Some(s)) ==> classes is Some && s@ == removed_classes(
            classes.unwrap()@,
            name@,
        ),
        r matches Err(e) ==> e == ClassError::InvalidClassName,
{
    match classes {
        None => Ok(None),
        Some(c) => {
            check_class_name(name)?;
            let list = split_classes(c);
            proof {
                lemma_class_list_shape(c@);
                assert forall|k: int| 0 <= k < list.len() implies (#[trigger] list@[k])@.len() > 0 by {
                    assert(views(list@)[k] == list@[k]@);
                }
            }
            let mut new = String::new();
            let ghost mut kept: Seq<Seq<char>> = Seq::empty();
            let mut i: usize = 0;
            while i < list.len()
                invariant
                    i <= list.len(),
                    views(list@) == class_list(c@),
                    forall|k: int| 0 <= k < list.len() ==> (#[trigger] list@[k])@.len() > 0,
                    kept == without(views(list@).take(i as int), name@),
                    new@ == join_space(kept),
                    new@.len() == 0 <==> kept.len() == 0,
                decreases list.len() - i,
            {
                let ghost pre = views(list@).take(i as int);
                assert(views(list@).take(i + 1).drop_last() == pre);
                assert(views(list@)[i as int] == list@[i as int]@);
                if !str_eq(list[i].as_str(), name) {
                    if !new.as_str().is_empty() {
                        push_char(&mut new, ' ');
                    }
                    push_str(&mut new, list[i].as_str());
                    proof {
                        let k2 = kept.push(list@[i as int]@);
                        if kept.len() == 0 {
                            assert(new@ == list@[i as int]@);
                        }
                        assert(k2.drop_last() == kept);
                        kept = k2;
                    }
                }
                i = i + 1;
            }
            assert(views(list@).take(list.len() as int) == views(list@));
            Ok(Some(new))
        },
    }
}

// ---------------------------------------------------------------------------
// Laws
/// Once a valid, non-empty class name has been added, the element has that class.
pub proof fn law_add_then_has(classes: Option<Seq<char>>, name: Seq<char>)
    requires
        valid_class_name(name),
        name.len() > 0,
    ensures
        class_list(added_classes(classes, name)).contains(name),
{
    lemma_split_single(name);
    match classes {
        None => {
            lemma_classes_contains(seq![name], name);
            assert(trim(seq![name][0]) == name);
        },
        Some(c) => {
            if !class_list(c).contains(name) {
                lemma_split_concat(c, name);
                let ps = split_pieces(c) + seq![name];
                lemma_classes_contains(ps, name);
                assert(trim(ps[ps.len() - 1]) == name);
            }
        },
    }
}

/// Adding a valid, non-empty class name keeps every class already there, in its order, and
/// puts the new name last if it was not there yet.
pub proof fn law_add_keeps_others(classes: Option<Seq<char>>, name: Seq<char>)
    requires
        valid_class_name(name),
        name.len() > 0,
    ensures
        class_list(added_classes(classes, name)) == match classes {
            None => seq![name],
            Some(c) => if class_list(c).contains(name) {
                class_list(c)
            } else {
                class_list(c).push(name)
            },
        },
{
    lemma_split_single(name);
    match classes {
        None => {
            let ps = seq![name];
            assert(ps.drop_last() == Seq::<Seq<char>>::empty());
            assert(classes_of_pieces(ps.drop_last()) == Seq::<Seq<char>>::empty());
            assert(Seq::<Seq<char>>::empty().push(name) == seq![name]);
        },
        Some(c) => {
            if !class_list(c).contains(name) {
                lemma_split_concat(c, name);
                let ps = split_pieces(c) + seq![name];
                assert(ps.drop_last() == split_pieces(c));
                assert(ps.last() == name);
            }
        },
    }
}

/// Adding a class twice is the same as adding it once.
pub proof fn law_add_idempotent(classes: Option<Seq<char>>, name: Seq<char>)
    requires
        valid_class_name(name),
        name.len() > 0,
    ensures
        added_classes(Some(added_classes(classes, name)), name) == added_classes(classes, name),
{
    law_add_then_has(classes, name);
}

/// Once a class name has been removed, the element no longer has it, and every other
/// class stays, in its order.
pub proof fn law_remove_then_not_has(c: Seq<char>, name: Seq<char>)
    ensures
        class_list(removed_classes(c, name)) == without(class_list(c), name),
        !class_list(removed_classes(c, name)).contains(name),
{
    lemma_class_list_shape(c);
    let l = class_list(c);
    lemma_without_shape(l, name);
    let w = without(l, name);
    assert forall|i: int| 0 <= i < w.len() implies (#[trigger] w[i]).len() > 0 && trim(w[i])
        == w[i] by {
        let k = choose|k: int| 0 <= k < l.len() && l[k] == w[i];
        assert(valid_class_name(l[k]));
    }
    if w.len() == 0 {
        assert(join_space(w) == Seq::<char>::empty());
        assert(split_pieces(Seq::<char>::empty()) == seq![Seq::<char>::empty()]);
        assert(trim_start(Seq::<char>::empty()) == Seq::<char>::empty());
        assert(trim_end(Seq::<char>::empty()) == Seq::<char>::empty());
        assert(trim(Seq::<char>::empty()) == Seq::<char>::empty());
        assert(classes_of_pieces(seq![Seq::<char>::empty()]) == Seq::<Seq<char>>::empty()) by {
            let ps = seq![Seq::<char>::empty()];
            assert(ps.drop_last() == Seq::<Seq<char>>::empty());
            assert(ps.last() == Seq::<char>::empty());
            assert(classes_of_pieces(ps.drop_last()) == Seq::<Seq<char>>::empty());
            assert(trim(ps.last()).len() == 0);
            assert(add_piece(Seq::<Seq<char>>::empty(), ps.last()) == Seq::<Seq<char>>::empty());
        }
    } else {
        assert forall|i: int, j: int| 0 <= i < w.len() && 0 <= j < w[i].len() implies
            !is_selector_white_space(#[trigger] w[i][j]) by {
            let k = choose|k: int| 0 <= k < l.len() && l[k] == w[i];
            assert(valid_class_name(l[k]));
        }
        lemma_split_join(w);
    }
    lemma_classes_of_clean(w);
}

/// The class list never holds an empty name, a name with white space at its ends or
/// selector white space inside, nor the same name twice.
pub proof fn law_class_list_clean(s: Seq<char>)
    ensures
        class_list(s).no_duplicates(),
        forall|i: int|
            0 <= i < class_list(s).len() ==> (#[trigger] class_list(s)[i]).len() > 0
                && valid_class_name(class_list(s)[i]),
{
    lemma_class_list_shape(s);
}

} // verus!
