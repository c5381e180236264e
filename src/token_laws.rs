//! Laws of syntactic comparison and containment of token trees.

use vstd::prelude::*;
use crate::tokens::{
    Delimiter, Spacing, TokenTree, tree_eq, stream_eq, occurs_at, stream_contains, group_contains,
};

verus! {

/// Every tree is syntactically equal to itself.
pub proof fn lemma_tree_eq_reflexive(t: TokenTree)
    ensures
        tree_eq(t, t),
    decreases t,
{
    match t {
        TokenTree::Group(_, c) => {
            assert forall|i: int| 0 <= i < c.len() implies tree_eq(#[trigger] c@[i], c@[i]) by {
                assert(decreases_to!(t => t->Group_1));
                assert(decreases_to!(c => c[i]));
                lemma_tree_eq_reflexive(c@[i]);
            }
        },
        _ => {},
    }
}

/// Every stream is syntactically equal to itself.
pub proof fn lemma_stream_eq_reflexive(s: Seq<TokenTree>)
    ensures
        stream_eq(s, s),
{
    assert forall|i: int| 0 <= i < s.len() implies tree_eq(#[trigger] s[i], s[i]) by {
        lemma_tree_eq_reflexive(s[i]);
    }
}

/// Punctuation marks with the same character are equal whatever their spacing.
pub proof fn lemma_punct_spacing_ignored(c: char, s1: Spacing, s2: Spacing)
    ensures
        tree_eq(TokenTree::Punct(c, s1), TokenTree::Punct(c, s2)),
{
}

/// Literals are equal exactly when their texts are: two literals of different kinds that
/// render the same text are equal, and renderings that differ (a suffix on one of them) are not.
pub proof fn lemma_literal_eq_by_text(a: String, b: String)
    ensures
        tree_eq(TokenTree::Literal(a), TokenTree::Literal(b)) == (a@ == b@),
{
}

/// Groups with different delimiters are never equal, whatever their children.
pub proof fn lemma_group_delimiter_matters(
    d1: Delimiter,
    c1: Vec<TokenTree>,
    d2: Delimiter,
    c2: Vec<TokenTree>,
)
    requires
        d1 != d2,
    ensures
        !tree_eq(TokenTree::Group(d1, c1), TokenTree::Group(d2, c2)),
{
}

/// Groups, and streams, with different numbers of children are never equal.
pub proof fn lemma_length_matters(
    d1: Delimiter,
    c1: Vec<TokenTree>,
    d2: Delimiter,
    c2: Vec<TokenTree>,
)
    requires
        c1.len() != c2.len(),
    ensures
        !tree_eq(TokenTree::Group(d1, c1), TokenTree::Group(d2, c2)),
        !stream_eq(c1@, c2@),
{
}

/// The empty stream is contained in every stream, the empty one included.
pub proof fn lemma_empty_needle_contained(hay: Seq<TokenTree>)
    ensures
        stream_contains(Seq::empty(), hay),
{
}

/// A stream is never contained in a shorter one, except inside one of its groups.
pub proof fn lemma_longer_needle_only_nested(needle: Seq<TokenTree>, hay: Seq<TokenTree>)
    requires
        needle.len() > hay.len(),
    ensures
        stream_contains(needle, hay) == exists|i: int|
            0 <= i < hay.len() && group_contains(needle, #[trigger] hay[i]),
{
}

/// A stream contained in the children of a group of `hay` is contained in `hay`.
pub proof fn lemma_contained_in_group(
    needle: Seq<TokenTree>,
    hay: Seq<TokenTree>,
    i: int,
    d: Delimiter,
    children: Vec<TokenTree>,
)
    requires
        0 <= i < hay.len(),
        hay[i] == TokenTree::Group(d, children),
        stream_contains(needle, children@),
    ensures
        stream_contains(needle, hay),
{
    assert(group_contains(needle, hay[i]));
}

/// A stream contained in a group two levels down in `hay` (in the children of a group that
/// is itself a child of a group of `hay`) is contained in `hay`.
pub proof fn lemma_contained_two_levels_down(
    needle: Seq<TokenTree>,
    hay: Seq<TokenTree>,
    i: int,
    d: Delimiter,
    children: Vec<TokenTree>,
    j: int,
    inner_d: Delimiter,
    inner_children: Vec<TokenTree>,
)
    requires
        0 <= i < hay.len(),
        hay[i] == TokenTree::Group(d, children),
        0 <= j < children.len(),
        children@[j] == TokenTree::Group(inner_d, inner_children),
        stream_contains(needle, inner_children@),
    ensures
        stream_contains(needle, hay),
{
    lemma_contained_in_group(needle, children@, j, inner_d, inner_children);
    lemma_contained_in_group(needle, hay, i, d, children);
}

/// Every stream is contained in itself.
pub proof fn lemma_contains_reflexive(s: Seq<TokenTree>)
    ensures
        stream_contains(s, s),
{
    if s.len() > 0 {
        assert forall|k: int| 0 <= k < s.len() implies tree_eq(#[trigger] s[0 + k], s[k]) by {
            lemma_tree_eq_reflexive(s[k]);
        }
        assert(occurs_at(s, s, 0));
    }
}

/// Syntactic equality of trees is symmetric.
pub proof fn lemma_tree_eq_symmetric(a: TokenTree, b: TokenTree)
    requires
        tree_eq(a, b),
    ensures
        tree_eq(b, a),
    decreases a,
{
    match (a, b) {
        (TokenTree::Group(_, c1), TokenTree::Group(_, c2)) => {
            assert forall|i: int| 0 <= i < c2.len() implies tree_eq(#[trigger] c2@[i], c1@[i]) by {
                assert(tree_eq(c1@[i], c2@[i]));
                assert(decreases_to!(a => a->Group_1));
                assert(decreases_to!(c1 => c1[i]));
                lemma_tree_eq_symmetric(c1@[i], c2@[i]);
            }
        },
        _ => {},
    }
}

/// A stream is contained in every stream syntactically equal to it.
pub proof fn lemma_equal_stream_contained(a: Seq<TokenTree>, b: Seq<TokenTree>)
    requires
        stream_eq(a, b),
    ensures
        stream_contains(a, b),
{
    if a.len() > 0 {
        assert forall|k: int| 0 <= k < a.len() implies tree_eq(#[trigger] b[0 + k], a[k]) by {
            assert(tree_eq(a[k], b[k]));
            lemma_tree_eq_symmetric(a[k], b[k]);
        }
        assert(occurs_at(a, b, 0));
    }
}

/// The number of nodes of a tree: one for itself, plus those of its children.
pub open spec fn tree_size(t: TokenTree) -> nat
    decreases t,
{
    match t {
        TokenTree::Group(_, c) => 1 + stream_size(c@),
        _ => 1,
    }
}

/// The number of nodes of the trees of a stream.
pub open spec fn stream_size(s: Seq<TokenTree>) -> nat
    decreases s,
{
    if s.len() == 0 {
        0
    } else {
        stream_size(s.subrange(0, s.len() - 1)) + tree_size(s[s.len() - 1])
    }
}

proof fn lemma_tree_eq_same_size(a: TokenTree, b: TokenTree)
    requires
        tree_eq(a, b),
    ensures
        tree_size(a) == tree_size(b),
    decreases a,
{
    match (a, b) {
        (TokenTree::Group(_, c1), TokenTree::Group(_, c2)) => {
            assert(decreases_to!(a => a->Group_1));
            lemma_stream_eq_same_size(c1@, c2@);
        },
        _ => {},
    }
}

proof fn lemma_stream_eq_same_size(a: Seq<TokenTree>, b: Seq<TokenTree>)
    requires
        stream_eq(a, b),
    ensures
        stream_size(a) == stream_size(b),
    decreases a,
{
    if a.len() > 0 {
        let n = a.len() - 1;
        assert(decreases_to!(a => a.subrange(0, n)));
        assert(decreases_to!(a => a[n]));
        assert(tree_eq(a[n], b[n]));
        lemma_tree_eq_same_size(a[n], b[n]);
        assert(stream_eq(a.subrange(0, n), b.subrange(0, n))) by {
            assert forall|i: int| 0 <= i < n implies tree_eq(
                #[trigger] a.subrange(0, n)[i],
                b.subrange(0, n)[i],
            ) by {
                assert(tree_eq(a[i], b[i]));
            }
        }
        lemma_stream_eq_same_size(a.subrange(0, n), b.subrange(0, n));
    }
}

proof fn lemma_size_concat(a: Seq<TokenTree>, b: Seq<TokenTree>)
    ensures
        stream_size(a + b) == stream_size(a) + stream_size(b),
    decreases b.len(),
{
    if b.len() == 0 {
        assert(a + b =~= a);
    } else {
        let n = b.len() - 1;
        let ab = a + b;
        assert(ab.subrange(0, ab.len() - 1) =~= a + b.subrange(0, n));
        assert(ab[ab.len() - 1] == b[n]);
        lemma_size_concat(a, b.subrange(0, n));
    }
}

proof fn lemma_size_at_least_len(s: Seq<TokenTree>)
    ensures
        stream_size(s) >= s.len(),
    decreases s.len(),
{
    if s.len() > 0 {
        let n = s.len() - 1;
        lemma_size_at_least_len(s.subrange(0, n));
        assert(tree_size(s[n]) >= 1);
        assert(stream_size(s) == stream_size(s.subrange(0, n)) + tree_size(s[n]));
    }
}

/// The nodes of a run of a stream, plus one for each tree left out of the run, are at most
/// those of the stream.
proof fn lemma_size_of_run(s: Seq<TokenTree>, i: int, j: int)
    requires
        0 <= i <= j <= s.len(),
    ensures
        stream_size(s.subrange(i, j)) + (s.len() - (j - i)) <= stream_size(s),
{
    let pre = s.subrange(0, i);
    let mid = s.subrange(i, j);
    let post = s.subrange(j, s.len() as int);
    assert(s =~= pre + mid + post);
    lemma_size_concat(pre + mid, post);
    lemma_size_concat(pre, mid);
    lemma_size_at_least_len(pre);
    lemma_size_at_least_len(post);
}

/// A contained stream has at most the nodes of the stream that contains it, and strictly
/// fewer when the two differ in length.
proof fn lemma_contained_size(needle: Seq<TokenTree>, hay: Seq<TokenTree>)
    requires
        stream_contains(needle, hay),
    ensures
        stream_size(needle) <= stream_size(hay),
        needle.len() != hay.len() ==> stream_size(needle) < stream_size(hay),
    decreases hay,
{
    if needle.len() == 0 {
        lemma_size_at_least_len(hay);
    } else if exists|i: int| occurs_at(needle, hay, i) {
        let i = choose|i: int| occurs_at(needle, hay, i);
        let run = hay.subrange(i, i + needle.len());
        assert(stream_eq(run, needle)) by {
            assert forall|k: int| 0 <= k < run.len() implies tree_eq(#[trigger] run[k], needle[k]) by {
                assert(tree_eq(hay[i + k], needle[k]));
            }
        }
        lemma_stream_eq_same_size(run, needle);
        lemma_size_of_run(hay, i, i + needle.len());
    } else {
        let i = choose|i: int| 0 <= i < hay.len() && group_contains(needle, #[trigger] hay[i]);
        let t = hay[i];
        let c = t->Group_1;
        assert(decreases_to!(hay => hay[i]));
        assert(decreases_to!(t => t->Group_1));
        lemma_contained_size(needle, c@);
        lemma_size_of_run(hay, i, i + 1);
        let one = hay.subrange(i, i + 1);
        assert(one.subrange(0, 0) =~= Seq::<TokenTree>::empty());
        assert(stream_size(one.subrange(0, 0)) == 0);
        assert(one[0] == t);
        assert(stream_size(one) == stream_size(one.subrange(0, 0)) + tree_size(one[0]));
    }
}

/// Containment is not symmetric: a stream contained in a longer one does not contain it.
pub proof fn lemma_containment_asymmetric(needle: Seq<TokenTree>, hay: Seq<TokenTree>)
    requires
        stream_contains(needle, hay),
        needle.len() < hay.len(),
    ensures
        !stream_contains(hay, needle),
{
    lemma_contained_size(needle, hay);
    if stream_contains(hay, needle) {
        lemma_contained_size(hay, needle);
    }
}

} // verus!
