//! What holds of paths and lookups whatever the document.

use crate::error::{FieldError, FieldResult};
use crate::index::{decimal_value, digit_value, index_of, is_digit, without_sign};
use crate::node::{Mapping, Node};
use crate::path::{alternatives_of, lemma_pieces_are_separator_free, pieces, Separator};
use crate::pathfinder::{bool_field, find, int_field, is_yes, lookup, resolve, usable};
use vstd::prelude::*;

verus! {

/// A text without a separator is a single piece: itself.
pub proof fn lemma_single_piece(s: Seq<char>, by: Separator)
    requires
        forall|i: int| 0 <= i < s.len() ==> !by.matches(#[trigger] s[i]),
    ensures
        pieces(s, by) == seq![s],
    decreases s.len(),
{
    if s.len() > 0 {
        let shorter = s.drop_last();
        assert forall|i: int| 0 <= i < shorter.len() implies !by.matches(#[trigger] shorter[i]) by {
            assert(shorter[i] == s[i]);
        }
        lemma_single_piece(shorter, by);
        assert(!by.matches(s[s.len() - 1]));
        let before = pieces(shorter, by);
        assert(before.drop_last() =~= Seq::<Seq<char>>::empty());
        assert(before.last() == shorter);
        assert(shorter.push(s.last()) =~= s);
        assert(before.drop_last().push(before.last().push(s.last())) =~= seq![s]);
    } else {
        assert(s =~= Seq::<char>::empty());
    }
}

/// How many separators of kind `by` the text `s` holds.
pub open spec fn separator_count(s: Seq<char>, by: Separator) -> nat
    decreases s.len(),
{
    if s.len() == 0 {
        0
    } else if by.matches(s.last()) {
        separator_count(s.drop_last(), by) + 1
    } else {
        separator_count(s.drop_last(), by)
    }
}

/// A text has one more piece than it has separators.
pub proof fn lemma_piece_count(s: Seq<char>, by: Separator)
    ensures
        pieces(s, by).len() == separator_count(s, by) + 1,
    decreases s.len(),
{
    if s.len() > 0 {
        lemma_piece_count(s.drop_last(), by);
    }
}

/// The pieces of two texts joined by a separator are the pieces of the first, then the
/// pieces of the second.
pub proof fn lemma_pieces_of_joined(a: Seq<char>, b: Seq<char>, c: char, by: Separator)
    requires
        by.matches(c),
    ensures
        pieces(a + seq![c] + b, by) == pieces(a, by) + pieces(b, by),
    decreases b.len(),
{
    let joined = a + seq![c] + b;
    if b.len() == 0 {
        assert(joined.drop_last() =~= a);
        assert(pieces(joined, by) =~= pieces(a, by) + pieces(b, by));
    } else {
        let shorter = b.drop_last();
        lemma_pieces_of_joined(a, shorter, c, by);
        lemma_pieces_are_separator_free(shorter, by);
        assert(joined.drop_last() =~= a + seq![c] + shorter);
        assert(joined.last() == b.last());
        assert(pieces(joined, by) =~= pieces(a, by) + pieces(b, by));
    }
}

/// The alternatives of `a|b` are those of `a`, then those of `b`.
pub proof fn lemma_alternatives_of_joined(a: Seq<char>, b: Seq<char>)
    ensures
        alternatives_of(a + seq!['|'] + b) == alternatives_of(a) + alternatives_of(b),
{
    lemma_pieces_of_joined(a, b, '|', Separator::Alternative);
    assert(alternatives_of(a + seq!['|'] + b) =~= alternatives_of(a) + alternatives_of(b));
}

/// A lookup over two runs of alternatives gives what the first run finds, and what the
/// second finds only where the first finds nothing.
pub proof fn lemma_lookup_in_order(
    node: Node,
    first: Seq<Seq<Seq<char>>>,
    second: Seq<Seq<Seq<char>>>,
)
    ensures
        lookup(node, first + second) == match lookup(node, first) {
            Some(found) => Some(found),
            None => lookup(node, second),
        },
    decreases first.len(),
{
    if first.len() == 0 {
        assert(first + second =~= second);
    } else {
        assert((first + second)[0] == first[0]);
        assert((first + second).skip(1) =~= first.skip(1) + second);
        lemma_lookup_in_order(node, first.skip(1), second);
    }
}

/// Whether alternative `i` is the first of `alternatives` to lead to a usable node.
pub open spec fn is_first_usable(node: Node, alternatives: Seq<Seq<Seq<char>>>, i: int) -> bool {
    &&& 0 <= i < alternatives.len()
    &&& usable(resolve(node, alternatives[i])) is Some
    &&& forall|j: int| 0 <= j < i ==> usable(resolve(node, #[trigger] alternatives[j])) is None
}

/// The first success wins: a lookup gives what the first alternative to lead to a usable
/// node leads to, and nothing where no alternative leads to one.
pub proof fn lemma_first_success_wins(node: Node, alternatives: Seq<Seq<Seq<char>>>)
    ensures
        match lookup(node, alternatives) {
            Some(found) => exists|i: int|
                #[trigger] is_first_usable(node, alternatives, i) && usable(
                    resolve(node, alternatives[i]),
                ) == Some(found),
            None => forall|i: int|
                0 <= i < alternatives.len() ==> usable(
                    resolve(node, #[trigger] alternatives[i]),
                ) is None,
        },
    decreases alternatives.len(),
{
    if alternatives.len() > 0 {
        let rest = alternatives.skip(1);
        if usable(resolve(node, alternatives[0])) is Some {
            assert(is_first_usable(node, alternatives, 0));
        } else {
            lemma_first_success_wins(node, rest);
            match lookup(node, rest) {
                Some(found) => {
                    let i = choose|i: int|
                        #[trigger] is_first_usable(node, rest, i) && usable(resolve(node, rest[i]))
                            == Some(found);
                    assert forall|j: int| 0 <= j < i + 1 implies usable(
                        resolve(node, #[trigger] alternatives[j]),
                    ) is None by {
                        if j > 0 {
                            assert(alternatives[j] == rest[j - 1]);
                        }
                    }
                    assert(alternatives[i + 1] == rest[i]);
                    assert(is_first_usable(node, alternatives, i + 1));
                },
                None => {
                    assert forall|i: int| 0 <= i < alternatives.len() implies usable(
                        resolve(node, #[trigger] alternatives[i]),
                    ) is None by {
                        if i > 0 {
                            assert(alternatives[i] == rest[i - 1]);
                        }
                    }
                },
            }
        }
    }
}

/// Precedence and fallback: the expression `a|b` finds what `a` finds; where `a` finds
/// nothing, it finds what `b` finds.
pub proof fn lemma_alternative_precedence(node: Node, a: Seq<char>, b: Seq<char>)
    ensures
        find(node, a + seq!['|'] + b) == match find(node, a) {
            Some(found) => Some(found),
            None => find(node, b),
        },
{
    lemma_alternatives_of_joined(a, b);
    lemma_lookup_in_order(node, alternatives_of(a), alternatives_of(b));
}

/// An expression without any separator is one alternative of one segment, and finds the
/// node one step below the root, where that node is usable.
pub proof fn lemma_single_segment(node: Node, key: Seq<char>)
    requires
        forall|i: int|
            0 <= i < key.len() ==> !Separator::Alternative.matches(#[trigger] key[i])
                && !Separator::Segment.matches(key[i]),
    ensures
        alternatives_of(key) == seq![seq![key]],
        find(node, key) == usable(node.child(key)),
{
    lemma_single_piece(key, Separator::Alternative);
    lemma_single_piece(key, Separator::Segment);
    assert(alternatives_of(key) =~= seq![seq![key]]);
    assert(alternatives_of(key).skip(1) =~= Seq::<Seq<Seq<char>>>::empty());
    assert(lookup(node, alternatives_of(key).skip(1)) is None);
}

/// A key with an explicit null and a key that is not there are the same to a lookup: it
/// finds nothing under either.
pub proof fn lemma_null_is_absent(hash: Mapping, key: Seq<char>)
    requires
        forall|i: int|
            0 <= i < key.len() ==> !Separator::Alternative.matches(#[trigger] key[i])
                && !Separator::Segment.matches(key[i]),
        !hash@.contains_key(key) || hash@[key].is_missing(),
    ensures
        find(Node::Hash(hash), key) is None,
{
    lemma_single_segment(Node::Hash(hash), key);
}

/// A segment against an array finds the item at the index that the segment names, where
/// that item is usable, and nothing where the segment names no index or one beyond the
/// array: never an error.
pub proof fn lemma_array_index(items: Vec<Node>, segment: Seq<char>)
    requires
        forall|i: int|
            0 <= i < segment.len() ==> !Separator::Alternative.matches(#[trigger] segment[i])
                && !Separator::Segment.matches(segment[i]),
    ensures
        resolve(Node::Array(items), seq![segment]) == match index_of(segment) {
            Some(index) => if index < items@.len() {
                Some(items@[index as int])
            } else {
                None
            },
            None => None,
        },
        find(Node::Array(items), segment) == usable(resolve(Node::Array(items), seq![segment])),
{
    lemma_single_segment(Node::Array(items), segment);
}

/// A single digit names the index that it stands for.
pub proof fn lemma_single_digit_index(digit: char)
    requires
        is_digit(digit),
    ensures
        index_of(seq![digit]) == Some(digit_value(digit)),
{
    let digits = seq![digit];
    assert(without_sign(digits) == digits);
    assert(digits.drop_last() =~= Seq::<char>::empty());
    assert(decimal_value(digits) == decimal_value(digits.drop_last()) * 10 + digit_value(
        digits.last(),
    ));
}

/// The integer getter on a string is `Invalid`, not `Missing`, and never a number.
pub proof fn lemma_string_is_no_integer(text: String, result: FieldResult<i64>)
    requires
        int_field(Some(Node::String(text)), result),
    ensures
        result matches Err(FieldError::Invalid(_)),
{
}

/// The lenient boolean getter on a string never fails: it gives `true` for `yes` in any
/// mix of cases, and `false` for every other string.
pub proof fn lemma_lenient_boolean_on_string(text: String, result: FieldResult<bool>)
    requires
        bool_field(Some(Node::String(text)), result),
    ensures
        result == Ok::<bool, FieldError>(is_yes(text@)),
{
}

/// The pieces of a text, with the separator `c` put back between them.
pub open spec fn rejoined(parts: Seq<Seq<char>>, c: char) -> Seq<char>
    decreases parts.len(),
{
    if parts.len() == 0 {
        Seq::empty()
    } else if parts.len() == 1 {
        parts[0]
    } else {
        rejoined(parts.drop_last(), c) + seq![c] + parts.last()
    }
}

/// Putting `|` back between the alternatives of an expression gives the expression.
pub proof fn lemma_alternatives_rejoin(s: Seq<char>)
    ensures
        rejoined(pieces(s, Separator::Alternative), '|') == s,
    decreases s.len(),
{
    let by = Separator::Alternative;
    if s.len() == 0 {
        assert(s =~= Seq::<char>::empty());
    } else {
        let shorter = s.drop_last();
        let before = pieces(shorter, by);
        lemma_alternatives_rejoin(shorter);
        lemma_pieces_are_separator_free(shorter, by);
        if by.matches(s.last()) {
            let parts = before.push(Seq::empty());
            assert(parts.drop_last() =~= before);
            assert(rejoined(parts, '|') =~= shorter + seq!['|']);
            assert(shorter + seq!['|'] =~= s);
        } else {
            let parts = before.drop_last().push(before.last().push(s.last()));
            if before.len() == 1 {
                assert(before[0] == shorter);
                assert(parts[0] =~= s);
            } else {
                assert(parts.drop_last() =~= before.drop_last());
                assert(rejoined(before, '|') == rejoined(before.drop_last(), '|') + seq!['|']
                    + before.last());
                assert(rejoined(parts, '|') =~= rejoined(before, '|').push(s.last()));
                assert(shorter.push(s.last()) =~= s);
            }
        }
    }
}

} // verus!
