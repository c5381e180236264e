//! A token-tree model and syntactic comparison over it.

use vstd::prelude::*;

verus! {

/// The delimiter that encloses a group of tokens.
#[derive(Debug, Clone, Copy, PartialEq, Eq, Structural)]
pub enum Delimiter {
    /// `( ... )`
    Parenthesis,
    /// `{ ... }`
    Brace,
    /// `[ ... ]`
    Bracket,
    /// An invisible grouping, with no delimiter in the text.
    Invisible,
}

/// Whether a punctuation mark is immediately followed by another one.
#[derive(Debug, Clone, Copy, PartialEq, Eq, Structural)]
pub enum Spacing {
    Alone,
    Joint,
}

/// A token tree: a leaf token, or a delimited group of token trees.
#[derive(Debug)]
pub enum TokenTree {
    /// An identifier, by its text.
    Ident(String),
    /// A punctuation character, with its spacing.
    Punct(char, Spacing),
    /// A literal, by its text as written (suffix included, whatever kind it was built as).
    Literal(String),
    /// A delimited group and its children, in order.
    Group(Delimiter, Vec<TokenTree>),
}

/// Syntactic equality of two trees: spacing of punctuation is ignored, literals and
/// identifiers compare by their text, groups by delimiter and children in order.
pub open spec fn tree_eq(a: TokenTree, b: TokenTree) -> bool
    decreases a,
{
    match (a, b) {
        (TokenTree::Ident(x), TokenTree::Ident(y)) => x@ == y@,
        (TokenTree::Punct(c, _), TokenTree::Punct(d, _)) => c == d,
        (TokenTree::Literal(x), TokenTree::Literal(y)) => x@ == y@,
        (TokenTree::Group(d1, c1), TokenTree::Group(d2, c2)) => {
            &&& d1 == d2
            &&& c1.len() == c2.len()
            &&& forall|i: int| 0 <= i < c1.len() ==> tree_eq(#[trigger] c1@[i], c2@[i])
        },
        _ => false,
    }
}

/// Two streams are syntactically equal: same length and pairwise equal trees.
pub open spec fn stream_eq(a: Seq<TokenTree>, b: Seq<TokenTree>) -> bool {
    &&& a.len() == b.len()
    &&& forall|i: int| 0 <= i < a.len() ==> tree_eq(#[trigger] a[i], b[i])
}

/// `needle` occurs as a contiguous run of `hay` starting at position `i`.
pub open spec fn occurs_at(needle: Seq<TokenTree>, hay: Seq<TokenTree>, i: int) -> bool {
    &&& 0 <= i
    &&& i + needle.len() <= hay.len()
    &&& forall|k: int| 0 <= k < needle.len() ==> tree_eq(#[trigger] hay[i + k], needle[k])
}

/// `needle` is contained in `hay`: it is empty, occurs at some position of `hay`, or is
/// contained in the children of one of the groups of `hay`.
pub open spec fn stream_contains(needle: Seq<TokenTree>, hay: Seq<TokenTree>) -> bool
    decreases hay,
{
    ||| needle.len() == 0
    ||| exists|i: int| occurs_at(needle, hay, i)
    ||| exists|i: int| 0 <= i < hay.len() && group_contains(needle, #[trigger] hay[i])
}

/// `t` is a group whose children contain `needle`.
pub open spec fn group_contains(needle: Seq<TokenTree>, t: TokenTree) -> bool
    decreases t,
{
    match t {
        TokenTree::Group(_, children) => stream_contains(needle, children@),
        _ => false,
    }
}

/// Compares two token trees by their syntactic content alone: the spacing of punctuation
/// is ignored, and literals compare by their text, whatever kind they were built as.
pub fn syntactic_token_tree_compare(tree1: &TokenTree, tree2: &TokenTree) -> (r: bool)
    ensures
        r == tree_eq(*tree1, *tree2),
    decreases tree1,
{
    match tree1 {
        TokenTree::Ident(x) => match tree2 {
            TokenTree::Ident(y) => *x == *y,
            _ => false,
        },
        TokenTree::Punct(c, _) => match tree2 {
            TokenTree::Punct(d, _) => *c == *d,
            _ => false,
        },
        TokenTree::Literal(x) => match tree2 {
            TokenTree::Literal(y) => *x == *y,
            _ => false,
        },
        TokenTree::Group(d1, c1) => match tree2 {
            TokenTree::Group(d2, c2) => {
                if *d1 != *d2 || c1.len() != c2.len() {
                    return false;
                }
                let mut i: usize = 0;
                while i < c1.len()
                    invariant
                        *tree1 == TokenTree::Group(*d1, *c1),
                        *tree2 == TokenTree::Group(*d2, *c2),
                        d1 == d2,
                        c1.len() == c2.len(),
                        i <= c1.len(),
                        forall|k: int| 0 <= k < i ==> tree_eq(#[trigger] c1@[k], c2@[k]),
                    decreases c1.len() - i,
                {
                    proof {
                        assert(decreases_to!(*tree1 => tree1->Group_1));
                        assert(decreases_to!(*c1 => c1[i as int]));
                        assert(decreases_to!(*tree1 => c1[i as int]));
                    }
                    if !syntactic_token_tree_compare(&c1[i], &c2[i]) {
                        return false;
                    }
                    i = i + 1;
                }
                true
            },
            _ => false,
        },
    }
}

/// Compares two token streams by their syntactic content: same length, and pairwise
/// equal trees as [`syntactic_token_tree_compare`] decides.
pub fn syntactic_token_stream_compare(stream1: &Vec<TokenTree>, stream2: &Vec<TokenTree>) -> (r:
    bool)
    ensures
        r == stream_eq(stream1@, stream2@),
{
    if stream1.len() != stream2.len() {
        return false;
    }
    let mut i: usize = 0;
    while i < stream1.len()
        invariant
            stream1.len() == stream2.len(),
            i <= stream1.len(),
            forall|k: int| 0 <= k < i ==> tree_eq(#[trigger] stream1@[k], stream2@[k]),
        decreases stream1.len() - i,
    {
        if !syntactic_token_tree_compare(&stream1[i], &stream2[i]) {
            return false;
        }
        i = i + 1;
    }
    true
}

/// Whether `needle` occurs in `hay` as a run that starts at position `start`.
fn occurs_at_position(needle: &Vec<TokenTree>, hay: &Vec<TokenTree>, start: usize) -> (r: bool)
    ensures
        r == occurs_at(needle@, hay@, start as int),
{
    if start > hay.len() || needle.len() > hay.len() - start {
        return false;
    }
    let mut k: usize = 0;
    while k < needle.len()
        invariant
            start + needle.len() <= hay.len(),
            k <= needle.len(),
            forall|m: int| 0 <= m < k ==> tree_eq(#[trigger] hay@[start + m], needle@[m]),
        decreases needle.len() - k,
    {
        if !syntactic_token_tree_compare(&hay[start + k], &needle[k]) {
            return false;
        }
        k = k + 1;
    }
    true
}

/// Whether the stream `small` is contained in the stream `large`, comparing trees by their
/// syntactic content. `small` may occur as a contiguous run of `large` itself or of the
/// children of any group nested in `large`, at any depth. The empty stream is contained
/// in every stream, and every stream is contained in itself.
pub fn syntactic_token_stream_contains(small: &Vec<TokenTree>, large: &Vec<TokenTree>) -> (r:
    bool)
    ensures
        r == stream_contains(small@, large@),
    decreases large,
{
    if small.len() == 0 {
        return true;
    }
    let mut i: usize = 0;
    while i < large.len()
        invariant
            small.len() > 0,
            i <= large.len(),
            forall|p: int| 0 <= p < i ==> !#[trigger] occurs_at(small@, large@, p),
            forall|p: int| 0 <= p < i ==> !group_contains(small@, #[trigger] large@[p]),
        decreases large.len() - i,
    {
        if occurs_at_position(small, large, i) {
            return true;
        }
        match &large[i] {
            TokenTree::Group(_, children) => {
                proof {
                    assert(decreases_to!(*large => large[i as int]));
                    assert(decreases_to!(large[i as int] => large[i as int]->Group_1));
                }
                if syntactic_token_stream_contains(small, children) {
                    return true;
                }
            },
            _ => {},
        }
        i = i + 1;
    }
    assert forall|p: int| !occurs_at(small@, large@, p) by {
        if 0 <= p < large.len() {
            assert(!occurs_at(small@, large@, p));
        }
    }
    false
}

} // verus!
