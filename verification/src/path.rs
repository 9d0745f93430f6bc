//! Path expressions: alternatives separated by `|`, segments separated by `.` or `/`.

use crate::chars::{
    char_is_whitespace, is_alternative_separator, is_segment_separator, is_whitespace,
};
use vstd::prelude::*;

verus! {

/// The way a text is cut: into alternatives, or into segments.
#[derive(Debug, Clone, Copy, PartialEq, Eq)]
pub enum Separator {
    /// `|`, between the alternatives of an expression.
    Alternative,
    /// `.` or `/`, between the segments of an alternative.
    Segment,
}

impl Separator {
    /// Whether `c` is a separator of this kind.
    pub open spec fn matches(self, c: char) -> bool {
        match self {
            Separator::Alternative => is_alternative_separator(c),
            Separator::Segment => is_segment_separator(c),
        }
    }

    /// Decides `matches` for one character.
    pub fn is_match(self, c: char) -> (b: bool)
        ensures
            b == self.matches(c),
    {
        match self {
            Separator::Alternative => c == '|',
            Separator::Segment => c == '.' || c == '/',
        }
    }
}

/// The pieces that the separators of kind `by` cut `s` into, from left to right: one more
/// piece than `s` has separators, the empty pieces among them.
pub open spec fn pieces(s: Seq<char>, by: Separator) -> Seq<Seq<char>>
    decreases s.len(),
{
    if s.len() == 0 {
        seq![Seq::empty()]
    } else {
        let before = pieces(s.drop_last(), by);
        if by.matches(s.last()) {
            before.push(Seq::empty())
        } else {
            before.drop_last().push(before.last().push(s.last()))
        }
    }
}

/// Cutting leaves at least one piece, no piece holds a separator, and every character of a
/// piece is a character of the text.
pub proof fn lemma_pieces_are_separator_free(s: Seq<char>, by: Separator)
    ensures
        pieces(s, by).len() >= 1,
        forall|i: int, k: int|
            0 <= i < pieces(s, by).len() && 0 <= k < pieces(s, by)[i].len() ==> {
                &&& !by.matches(#[trigger] pieces(s, by)[i][k])
                &&& s.contains(pieces(s, by)[i][k])
            },
    decreases s.len(),
{
    if s.len() > 0 {
        let shorter = s.drop_last();
        let before = pieces(shorter, by);
        lemma_pieces_are_separator_free(shorter, by);
        assert forall|i: int, k: int|
            0 <= i < pieces(s, by).len() && 0 <= k < pieces(s, by)[i].len() implies {
            &&& !by.matches(#[trigger] pieces(s, by)[i][k])
            &&& s.contains(pieces(s, by)[i][k])
        } by {
            let c = pieces(s, by)[i][k];
            if !by.matches(s.last()) && i == before.len() - 1 && k == before.last().len() {
                assert(s[s.len() - 1] == c);
            } else {
                assert(c == before[i][k]);
                let at = choose|at: int| 0 <= at < shorter.len() && shorter[at] == c;
                assert(s[at] == c);
            }
        }
    }
}

/// The segments of one alternative.
pub open spec fn segments_of(alternative: Seq<char>) -> Seq<Seq<char>> {
    pieces(alternative, Separator::Segment)
}

/// The alternatives of an expression, each as its segments, in the order written.
pub open spec fn alternatives_of(expr: Seq<char>) -> Seq<Seq<Seq<char>>> {
    let texts = pieces(expr, Separator::Alternative);
    Seq::new(texts.len(), |i: int| segments_of(texts[i]))
}

/// Whether `s` holds a whitespace character.
pub open spec fn has_whitespace(s: Seq<char>) -> bool {
    exists|i: int| 0 <= i < s.len() && is_whitespace(#[trigger] s[i])
}

/// What each of `parts` holds.
pub open spec fn texts(parts: Seq<&str>) -> Seq<Seq<char>> {
    Seq::new(parts.len(), |i: int| parts[i]@)
}

/// Decides `has_whitespace`.
pub fn contains_whitespace(text: &str) -> (b: bool)
    ensures
        b == has_whitespace(text@),
{
    let len = text.unicode_len();
    let mut i: usize = 0;
    while i < len
        invariant
            i <= len,
            len == text@.len(),
            forall|j: int| 0 <= j < i ==> !is_whitespace(#[trigger] text@[j]),
        decreases len - i,
    {
        if char_is_whitespace(text.get_char(i)) {
            return true;
        }
        i += 1;
    }
    false
}

/// Cuts `text` at its separators of kind `by`.
pub fn split<'a>(text: &'a str, by: Separator) -> (parts: Vec<&'a str>)
    ensures
        texts(parts@) == pieces(text@, by),
{
    let len = text.unicode_len();
    let mut parts: Vec<&'a str> = Vec::new();
    let mut start: usize = 0;
    let mut i: usize = 0;
    assert(text@.take(0) =~= Seq::empty());
    assert(texts(parts@).push(text@.subrange(0, 0)) =~= seq![Seq::empty()]);
    while i < len
        invariant
            start <= i <= len,
            len == text@.len(),
            pieces(text@.take(i as int), by) == texts(parts@).push(
                text@.subrange(start as int, i as int),
            ),
        decreases len - i,
    {
        let c = text.get_char(i);
        let ghost before = pieces(text@.take(i as int), by);
        let ghost done = texts(parts@);
        assert(text@.take(i + 1).drop_last() =~= text@.take(i as int));
        assert(text@.take(i + 1).last() == c);
        if by.is_match(c) {
            parts.push(text.substring_char(start, i));
            start = i + 1;
            assert(texts(parts@) =~= before);
            assert(text@.subrange(start as int, i + 1) =~= Seq::empty());
        } else {
            assert(before.drop_last() =~= done);
            assert(before.last().push(c) =~= text@.subrange(start as int, i + 1));
        }
        i += 1;
    }
    assert(text@.take(len as int) =~= text@);
    parts.push(text.substring_char(start, len));
    assert(texts(parts@) =~= pieces(text@, by));
    parts
}

/// One alternative of a path expression: its segments, from the root downwards.
#[derive(Debug, PartialEq, Eq)]
pub struct YPath<'a> {
    segments: Vec<&'a str>,
}

impl<'a> View for YPath<'a> {
    type V = Seq<Seq<char>>;

    closed spec fn view(&self) -> Seq<Seq<char>> {
        texts(self.segments@)
    }
}

impl<'a> YPath<'a> {
    /// Cuts one alternative into its segments. The alternative holds no whitespace.
    pub fn new(alternative: &'a str) -> (path: YPath<'a>)
        requires
            !has_whitespace(alternative@),
        ensures
            path@ == segments_of(alternative@),
    {
        YPath { segments: split(alternative, Separator::Segment) }
    }

    /// Cuts one alternative into its segments, unless it holds whitespace.
    pub fn parse(alternative: &'a str) -> (path: Option<YPath<'a>>)
        ensures
            path is None <==> has_whitespace(alternative@),
            path matches Some(p) ==> p@ == segments_of(alternative@),
    {
        if contains_whitespace(alternative) {
            None
        } else {
            Some(YPath::new(alternative))
        }
    }

    /// The segments, from the root downwards.
    pub fn elements(&self) -> (segments: &[&'a str])
        ensures
            texts(segments@) == self@,
    {
        self.segments.as_slice()
    }
}

/// A path expression: its alternatives, the one to try first in front.
#[derive(Debug, PartialEq, Eq)]
pub struct YPaths<'a> {
    alternatives: Vec<YPath<'a>>,
}

/// What each of `paths` holds.
pub open spec fn path_views(paths: Seq<YPath<'_>>) -> Seq<Seq<Seq<char>>> {
    Seq::new(paths.len(), |i: int| paths[i]@)
}

impl<'a> View for YPaths<'a> {
    type V = Seq<Seq<Seq<char>>>;

    closed spec fn view(&self) -> Seq<Seq<Seq<char>>> {
        path_views(self.alternatives@)
    }
}

impl<'a> YPaths<'a> {
    /// Cuts an expression into its alternatives, and each of them into its segments. The
    /// expression holds no whitespace.
    pub fn new(expr: &'a str) -> (paths: YPaths<'a>)
        requires
            !has_whitespace(expr@),
        ensures
            paths@ == alternatives_of(expr@),
    {
        let parts = split(expr, Separator::Alternative);
        let mut alternatives: Vec<YPath<'a>> = Vec::new();
        let mut i: usize = 0;
        assert forall|j: int| 0 <= j < parts@.len() implies !has_whitespace(
            #[trigger] parts@[j]@,
        ) by {
            lemma_pieces_are_separator_free(expr@, Separator::Alternative);
            assert(parts@[j]@ == texts(parts@)[j]);
            if has_whitespace(parts@[j]@) {
                let k = choose|k: int| 0 <= k < parts@[j]@.len() && is_whitespace(parts@[j]@[k]);
                assert(expr@.contains(pieces(expr@, Separator::Alternative)[j][k]));
            }
        }
        while i < parts.len()
            invariant
                i <= parts@.len(),
                alternatives@.len() == i,
                forall|j: int|
                    0 <= j < parts@.len() ==> !has_whitespace(#[trigger] parts@[j]@),
                forall|j: int|
                    0 <= j < i ==> (#[trigger] alternatives@[j])@ == segments_of(parts@[j]@),
            decreases parts@.len() - i,
        {
            alternatives.push(YPath::new(parts[i]));
            i += 1;
        }
        let paths = YPaths { alternatives };
        assert(paths@ =~= alternatives_of(expr@));
        paths
    }

    /// Cuts an expression into its alternatives, unless it holds whitespace.
    pub fn parse(expr: &'a str) -> (paths: Option<YPaths<'a>>)
        ensures
            paths is None <==> has_whitespace(expr@),
            paths matches Some(p) ==> p@ == alternatives_of(expr@),
    {
        if contains_whitespace(expr) {
            None
        } else {
            Some(YPaths::new(expr))
        }
    }

    /// The alternatives, the one to try first in front.
    pub fn alternatives(&self) -> (alternatives: &[YPath<'a>])
        ensures
            path_views(alternatives@) == self@,
    {
        self.alternatives.as_slice()
    }
}

} // verus!
