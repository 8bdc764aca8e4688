//! The text of an HTML subtree: all of it (`strip_tags`) or as a reader sees it
//! (`inner_text`, with runs of white space collapsed).
use vstd::prelude::*;
use crate::text::{
    chars_of, eq_range, is_white_space, push_char, push_range, trim_bounds, trim_end,
    trim_start, trim_start_index, views, white_space,
};
use crate::classes::{lemma_trim_end_shape, lemma_trim_start_shape};
use tsugiki::dom::NodeRef;
use tsugiki::traits::NodeIterator;

verus! {

#[verifier::external_type_specification]
#[verifier::external_body]
pub struct ExNodeRef(NodeRef);

/// `s` with each maximal run of white space replaced by one space.
pub open spec fn collapse_white_space(s: Seq<char>) -> Seq<char>
    decreases s.len(),
{
    if s.len() == 0 {
        s
    } else {
        let c = collapse_white_space(s.drop_last());
        if is_white_space(s.last()) {
            if s.len() > 1 && is_white_space(s[s.len() - 2]) {
                c
            } else {
                c.push(' ')
            }
        } else {
            c.push(s.last())
        }
    }
}

/// One text node's contribution to `inner_text`: the state is the text so far and
/// whether it ends in a space that white space at the end of a text node put there.
pub open spec fn inner_text_step(st: (Seq<char>, bool), text: Seq<char>) -> (Seq<char>, bool) {
    let processed = collapse_white_space(text);
    let start_stripped = trim_start(processed);
    let has_start = processed != start_stripped;
    let end_stripped = trim_end(start_stripped);
    let has_ending = text != end_stripped;
    if end_stripped.len() == 0 {
        if !st.1 && (has_start || has_ending) {
            (st.0.push(' '), true)
        } else {
            st
        }
    } else {
        let a = if !st.1 && has_start {
            st.0.push(' ')
        } else {
            st.0
        };
        let b = a + end_stripped;
        (if has_ending {
            b.push(' ')
        } else {
            b
        }, has_ending)
    }
}

pub open spec fn inner_text_fold(texts: Seq<Seq<char>>) -> (Seq<char>, bool)
    decreases texts.len(),
{
    if texts.len() == 0 {
        (Seq::empty(), false)
    } else {
        inner_text_step(inner_text_fold(texts.drop_last()), texts.last())
    }
}

/// The readable text of a subtree whose text nodes, in tree order, hold `texts`.
pub open spec fn inner_text_of(texts: Seq<Seq<char>>) -> Seq<char> {
    inner_text_fold(texts).0
}

/// All text of a subtree whose text nodes, in tree order, hold `texts`.
pub open spec fn strip_tags_of(texts: Seq<Seq<char>>) -> Seq<char>
    decreases texts.len(),
{
    if texts.len() == 0 {
        Seq::empty()
    } else {
        strip_tags_of(texts.drop_last()) + texts.last()
    }
}

/// `text` with each maximal run of white space replaced by one space
/// (what the pattern `\s+` replaced by `" "` gives).
pub fn collapse(text: &Vec<char>) -> (out: Vec<char>)
    ensures
        out@ == collapse_white_space(text@),
{
    let mut out: Vec<char> = Vec::new();
    let mut i: usize = 0;
    while i < text.len()
        invariant
            i <= text.len(),
            out@ == collapse_white_space(text@.take(i as int)),
        decreases text.len() - i,
    {
        let c = text[i];
        let ghost pre = text@.take(i as int);
        assert(text@.take(i + 1).drop_last() == pre);
        if white_space(c) {
            if i > 0 && white_space(text[i - 1]) {
                assert(text@.take(i + 1)[i - 1] == text@[i - 1]);
            } else {
                out.push(' ');
            }
        } else {
            out.push(c);
        }
        i = i + 1;
    }
    assert(text@.take(text.len() as int) == text@);
    out
}

/// Text whose only white space is single spaces: no other white space character, and no
/// two spaces in a row.
pub open spec fn single_spaced(s: Seq<char>) -> bool {
    &&& forall|i: int| 0 <= i < s.len() && is_white_space(#[trigger] s[i]) ==> s[i] == ' '
    &&& forall|i: int| 0 <= i < s.len() - 1 && #[trigger] s[i] == ' ' ==> s[i + 1] != ' '
}

proof fn lemma_collapse_props(s: Seq<char>)
    ensures
        single_spaced(collapse_white_space(s)),
        s.len() > 0 ==> collapse_white_space(s).len() > 0,
        s.len() > 0 && is_white_space(s.last()) ==> collapse_white_space(s).last() == ' ',
        s.len() > 0 && !is_white_space(s.last()) ==> collapse_white_space(s).last() == s.last(),
    decreases s.len(),
{
    if s.len() > 0 {
        let pre = s.drop_last();
        lemma_collapse_props(pre);
        let c = collapse_white_space(pre);
        let r = collapse_white_space(s);
        if pre.len() > 0 {
            assert(pre.last() == s[s.len() - 2]);
        }
        if is_white_space(s.last()) {
            if s.len() > 1 && is_white_space(s[s.len() - 2]) {
            } else {
                assert forall|i: int| 0 <= i < r.len() - 1 && #[trigger] r[i] == ' ' implies r[i + 1]
                    != ' ' by {
                    if i == r.len() - 2 {
                        assert(r[i] == c.last());
                    } else {
                        assert(r[i] == c[i] && r[i + 1] == c[i + 1]);
                    }
                }
                assert forall|i: int| 0 <= i < r.len() && is_white_space(#[trigger] r[i]) implies r[i]
                    == ' ' by {
                    if i < c.len() {
                        assert(r[i] == c[i]);
                    }
                }
            }
        } else {
            assert forall|i: int| 0 <= i < r.len() - 1 && #[trigger] r[i] == ' ' implies r[i + 1]
                != ' ' by {
                if i == r.len() - 2 {
                } else {
                    assert(r[i] == c[i] && r[i + 1] == c[i + 1]);
                }
            }
            assert forall|i: int| 0 <= i < r.len() && is_white_space(#[trigger] r[i]) implies r[i]
                == ' ' by {
                if i < c.len() {
                    assert(r[i] == c[i]);
                }
            }
        }
    }
}

/// The part of a text node that `inner_text` keeps: single spaced, and neither starting nor
/// ending with white space.
proof fn lemma_kept_part(text: Seq<char>)
    ensures
        ({
            let e = trim_end(trim_start(collapse_white_space(text)));
            &&& single_spaced(e)
            &&& e.len() > 0 ==> !is_white_space(e[0]) && !is_white_space(e.last())
        }),
{
    let p = collapse_white_space(text);
    lemma_collapse_props(text);
    let u = trim_start(p);
    lemma_trim_start_shape(p);
    let e = trim_end(u);
    lemma_trim_end_shape(u);
    let i = choose|i: int| 0 <= i <= p.len() && u == p.subrange(i, p.len() as int);
    assert forall|k: int| 0 <= k < e.len() implies #[trigger] e[k] == p[i + k] by {
        assert(e[k] == u[k]);
    }
    assert forall|k: int| 0 <= k < e.len() && is_white_space(#[trigger] e[k]) implies e[k] == ' ' by {
        assert(e[k] == p[i + k]);
    }
    assert forall|k: int| 0 <= k < e.len() - 1 && #[trigger] e[k] == ' ' implies e[k + 1] != ' ' by {
        assert(e[k] == p[i + k]);
        assert(e[k + 1] == p[i + k + 1]);
    }
    if e.len() > 0 {
        assert(e[0] == u[0]);
    }
}

/// What `inner_text` builds stays single spaced, and ends in a space exactly when the last
/// text node asked for a separating space.
proof fn lemma_fold_props(texts: Seq<Seq<char>>)
    ensures
        single_spaced(inner_text_fold(texts).0),
        inner_text_fold(texts).1 <==> (inner_text_fold(texts).0.len() > 0
            && inner_text_fold(texts).0.last() == ' '),
    decreases texts.len(),
{
    if texts.len() > 0 {
        lemma_fold_props(texts.drop_last());
        let st = inner_text_fold(texts.drop_last());
        let text = texts.last();
        lemma_kept_part(text);
        let processed = collapse_white_space(text);
        let start_stripped = trim_start(processed);
        let has_start = processed != start_stripped;
        let e = trim_end(start_stripped);
        let has_ending = text != e;
        let acc = st.0;
        if e.len() == 0 {
            if !st.1 && (has_start || has_ending) {
                let r = acc.push(' ');
                assert forall|i: int| 0 <= i < r.len() - 1 && #[trigger] r[i] == ' ' implies r[i + 1]
                    != ' ' by {
                    if i < r.len() - 2 {
                        assert(r[i] == acc[i] && r[i + 1] == acc[i + 1]);
                    }
                }
                assert forall|i: int| 0 <= i < r.len() && is_white_space(#[trigger] r[i]) implies r[i]
                    == ' ' by {
                    if i < acc.len() {
                        assert(r[i] == acc[i]);
                    }
                }
            }
        } else {
            let a = if !st.1 && has_start {
                acc.push(' ')
            } else {
                acc
            };
            assert(single_spaced(a)) by {
                if !st.1 && has_start {
                    assert forall|i: int| 0 <= i < a.len() - 1 && #[trigger] a[i] == ' ' implies a[i
                        + 1] != ' ' by {
                        if i < a.len() - 2 {
                            assert(a[i] == acc[i] && a[i + 1] == acc[i + 1]);
                        }
                    }
                    assert forall|i: int| 0 <= i < a.len() && is_white_space(#[trigger] a[i]) implies a[i]
                        == ' ' by {
                        if i < acc.len() {
                            assert(a[i] == acc[i]);
                        }
                    }
                }
            }
            let b = a + e;
            assert(single_spaced(b)) by {
                assert forall|i: int| 0 <= i < b.len() - 1 && #[trigger] b[i] == ' ' implies b[i + 1]
                    != ' ' by {
                    if i < a.len() - 1 {
                        assert(b[i] == a[i] && b[i + 1] == a[i + 1]);
                    } else if i == a.len() - 1 {
                        assert(b[i + 1] == e[0]);
                    } else {
                        assert(b[i] == e[i - a.len()] && b[i + 1] == e[i - a.len() + 1]);
                    }
                }
                assert forall|i: int| 0 <= i < b.len() && is_white_space(#[trigger] b[i]) implies b[i]
                    == ' ' by {
                    if i < a.len() {
                        assert(b[i] == a[i]);
                    } else {
                        assert(b[i] == e[i - a.len()]);
                    }
                }
            }
            assert(b.last() == e.last());
            if has_ending {
                let c = b.push(' ');
                assert forall|i: int| 0 <= i < c.len() - 1 && #[trigger] c[i] == ' ' implies c[i + 1]
                    != ' ' by {
                    if i < c.len() - 2 {
                        assert(c[i] == b[i] && c[i + 1] == b[i + 1]);
                    }
                }
                assert forall|i: int| 0 <= i < c.len() && is_white_space(#[trigger] c[i]) implies c[i]
                    == ' ' by {
                    if i < b.len() {
                        assert(c[i] == b[i]);
                    }
                }
            }
        }
    }
}

/// The readable text of a subtree is single spaced: every white space character in it is a
/// space, and no two spaces follow each other.
pub proof fn law_inner_text_single_spaced(texts: Seq<Seq<char>>)
    ensures
        single_spaced(inner_text_of(texts)),
{
    lemma_fold_props(texts);
}

/// Whether a character is kept by `non_white`.
pub open spec fn not_white() -> spec_fn(char) -> bool {
    |c: char| !is_white_space(c)
}

/// The characters of `s` that are not white space, in order.
pub open spec fn non_white(s: Seq<char>) -> Seq<char> {
    s.filter(not_white())
}

proof fn lemma_non_white_push(s: Seq<char>, c: char)
    ensures
        non_white(s.push(c)) == if is_white_space(c) {
            non_white(s)
        } else {
            non_white(s).push(c)
        },
{
    s.lemma_filter_push(c, not_white());
}

proof fn lemma_non_white_add(a: Seq<char>, b: Seq<char>)
    ensures
        non_white(a + b) == non_white(a) + non_white(b),
{
    Seq::filter_distributes_over_add(a, b, not_white());
}

proof fn lemma_non_white_collapse(t: Seq<char>)
    ensures
        non_white(collapse_white_space(t)) == non_white(t),
    decreases t.len(),
{
    if t.len() > 0 {
        let pre = t.drop_last();
        lemma_non_white_collapse(pre);
        assert(pre.push(t.last()) == t);
        lemma_non_white_push(pre, t.last());
        let c = collapse_white_space(pre);
        lemma_non_white_push(c, ' ');
        lemma_non_white_push(c, t.last());
    }
}

proof fn lemma_non_white_trim_start(s: Seq<char>)
    ensures
        non_white(trim_start(s)) == non_white(s),
    decreases s.len(),
{
    if s.len() > 0 && is_white_space(s[0]) {
        lemma_non_white_trim_start(s.drop_first());
        assert(seq![s[0]] + s.drop_first() == s);
        lemma_non_white_add(seq![s[0]], s.drop_first());
        assert(Seq::<char>::empty().push(s[0]) == seq![s[0]]);
        lemma_non_white_push(Seq::<char>::empty(), s[0]);
        assert(non_white(Seq::<char>::empty()) == Seq::<char>::empty()) by {
            reveal(Seq::filter);
        }
        assert(Seq::<char>::empty() + non_white(s.drop_first()) == non_white(s.drop_first()));
    }
}

proof fn lemma_non_white_trim_end(s: Seq<char>)
    ensures
        non_white(trim_end(s)) == non_white(s),
    decreases s.len(),
{
    if s.len() > 0 && is_white_space(s.last()) {
        lemma_non_white_trim_end(s.drop_last());
        assert(s.drop_last().push(s.last()) == s);
        lemma_non_white_push(s.drop_last(), s.last());
    }
}

proof fn lemma_non_white_empty()
    ensures
        non_white(Seq::<char>::empty()) == Seq::<char>::empty(),
{
    reveal(Seq::filter);
}

proof fn lemma_fold_non_white(texts: Seq<Seq<char>>)
    ensures
        non_white(inner_text_fold(texts).0) == non_white(strip_tags_of(texts)),
    decreases texts.len(),
{
    if texts.len() == 0 {
        lemma_non_white_empty();
    } else {
        let pre = texts.drop_last();
        let text = texts.last();
        lemma_fold_non_white(pre);
        let st = inner_text_fold(pre);
        let processed = collapse_white_space(text);
        let start_stripped = trim_start(processed);
        let end_stripped = trim_end(start_stripped);
        lemma_non_white_collapse(text);
        lemma_non_white_trim_start(processed);
        lemma_non_white_trim_end(start_stripped);
        lemma_non_white_add(strip_tags_of(pre), text);
        lemma_non_white_push(st.0, ' ');
        if end_stripped.len() == 0 {
            lemma_non_white_empty();
            assert(non_white(strip_tags_of(pre)) + Seq::<char>::empty() == non_white(
                strip_tags_of(pre),
            ));
        } else {
            let a = if !st.1 && processed != start_stripped {
                st.0.push(' ')
            } else {
                st.0
            };
            let b = a + end_stripped;
            lemma_non_white_add(a, end_stripped);
            lemma_non_white_push(b, ' ');
        }
    }
}

proof fn lemma_collapse_no_white(t: Seq<char>)
    requires
        forall|j: int| 0 <= j < t.len() ==> !is_white_space(#[trigger] t[j]),
    ensures
        collapse_white_space(t) == t,
    decreases t.len(),
{
    if t.len() > 0 {
        lemma_collapse_no_white(t.drop_last());
        assert(t.drop_last().push(t.last()) == t);
    }
}

proof fn lemma_fold_no_white(texts: Seq<Seq<char>>)
    requires
        forall|i: int, j: int|
            0 <= i < texts.len() && 0 <= j < texts[i].len() ==> !is_white_space(
                #[trigger] texts[i][j],
            ),
    ensures
        inner_text_fold(texts) == (strip_tags_of(texts), false),
    decreases texts.len(),
{
    if texts.len() > 0 {
        let pre = texts.drop_last();
        let text = texts.last();
        assert forall|i: int, j: int| 0 <= i < pre.len() && 0 <= j < pre[i].len() implies !is_white_space(
            #[trigger] pre[i][j],
        ) by {
            assert(pre[i] == texts[i]);
        }
        lemma_fold_no_white(pre);
        assert forall|j: int| 0 <= j < text.len() implies !is_white_space(#[trigger] text[j]) by {
            assert(text[j] == texts[texts.len() - 1][j]);
        }
        lemma_collapse_no_white(text);
        assert(trim_start(text) == text);
        assert(trim_end(text) == text);
        if text.len() == 0 {
            assert(strip_tags_of(pre) + text == strip_tags_of(pre));
        }
    }
}

/// Readable text and all text hold the same characters other than white space, in the same
/// order; and where no text node holds white space at all, the two are the same text.
pub proof fn law_inner_text_keeps_words(texts: Seq<Seq<char>>)
    ensures
        non_white(inner_text_of(texts)) == non_white(strip_tags_of(texts)),
        (forall|i: int, j: int|
            0 <= i < texts.len() && 0 <= j < texts[i].len() ==> !is_white_space(
                #[trigger] texts[i][j],
            )) ==> inner_text_of(texts) == strip_tags_of(texts),
{
    lemma_fold_non_white(texts);
    if forall|i: int, j: int|
        0 <= i < texts.len() && 0 <= j < texts[i].len() ==> !is_white_space(#[trigger] texts[i][j]) {
        lemma_fold_no_white(texts);
    }
}

/// The readable text of a subtree from the contents of its text nodes in tree order:
/// inside each node runs of white space become one space, leading and trailing white space
/// becomes one separating space, and no two such spaces follow each other.
pub fn inner_text_from(texts: &Vec<String>) -> (out: String)
    ensures
        out@ == inner_text_of(views(texts@)),
{
    let mut acc = String::new();
    let mut trailing = false;
    let mut i: usize = 0;
    while i < texts.len()
        invariant
            i <= texts.len(),
            (acc@, trailing) == inner_text_fold(views(texts@).take(i as int)),
        decreases texts.len() - i,
    {
        let ghost pre = views(texts@).take(i as int);
        assert(views(texts@).take(i + 1).drop_last() == pre);
        assert(views(texts@).take(i + 1).last() == texts@[i as int]@);
        let text = chars_of(texts[i].as_str());
        let processed = collapse(&text);
        let s = trim_start_index(&processed);
        let has_start = s > 0;
        let (a, b) = trim_bounds(&processed, 0, processed.len());
        proof {
            assert(processed@.subrange(0, processed@.len() as int) == processed@);
            if s == 0 {
                assert(processed@.subrange(0, processed@.len() as int) == processed@);
            }
        }
        let has_ending = !eq_range(&text, &processed, a, b);
        if a == b {
            if !trailing && (has_start || has_ending) {
                push_char(&mut acc, ' ');
                trailing = true;
            }
        } else {
            if !trailing && has_start {
                push_char(&mut acc, ' ');
            }
            push_range(&mut acc, &processed, a, b);
            if has_ending {
                push_char(&mut acc, ' ');
            }
            trailing = has_ending;
        }
        i = i + 1;
    }
    assert(views(texts@).take(texts.len() as int) == views(texts@));
    acc
}

/// All text of a subtree from the contents of its text nodes in tree order.
pub fn strip_tags_from(texts: &Vec<String>) -> (out: String)
    ensures
        out@ == strip_tags_of(views(texts@)),
{
    let mut acc = String::new();
    let mut i: usize = 0;
    while i < texts.len()
        invariant
            i <= texts.len(),
            acc@ == strip_tags_of(views(texts@).take(i as int)),
        decreases texts.len() - i,
    {
        assert(views(texts@).take(i + 1).drop_last() == views(texts@).take(i as int));
        assert(views(texts@).take(i + 1).last() == texts@[i as int]@);
        crate::text::push_str(&mut acc, texts[i].as_str());
        i = i + 1;
    }
    assert(views(texts@).take(texts.len() as int) == views(texts@));
    acc
}

/// `NodeRef::inclusive_descendants` filtered to text nodes (`NodeIterator::text_nodes`),
/// each mapped to a copy of its contents. What the tree holds is shared mutable state,
/// so nothing is claimed of the result.
#[verifier::external_body]
fn text_node_contents(node: &NodeRef) -> Vec<String> {
    node.inclusive_descendants().text_nodes().map(|t| t.borrow().content.clone()).collect()
}

/// All text in the subtree of `node`, the node included.
pub fn strip_tags(node: &NodeRef) -> (out: String)
    ensures
        exists|texts: Seq<Seq<char>>| out@ == strip_tags_of(texts),
{
    let texts = text_node_contents(node);
    strip_tags_from(&texts)
}

/// The readable text in the subtree of `node`, the node included.
pub fn inner_text(node: &NodeRef) -> (out: String)
    ensures
        exists|texts: Seq<Seq<char>>| out@ == inner_text_of(texts),
{
    let texts = text_node_contents(node);
    inner_text_from(&texts)
}

} // verus!
