//! Lookups by path, and the typed getters on top of them.

use crate::date::{dmy_date, parse_dmy_date, Date};
use crate::error::{
    coercion_result, conclude, debug_text, invalid_message, FieldError, FieldResult,
};
use crate::node::{Mapping, Node};
use crate::path::{alternatives_of, has_whitespace, path_views, texts, YPath, YPaths};
use vstd::prelude::*;
use vstd::slice::slice_subrange;

verus! {

/// The node that `segments` lead to from `node`, one step for each segment. No segments
/// lead nowhere.
pub open spec fn resolve(node: Node, segments: Seq<Seq<char>>) -> Option<Node>
    decreases segments.len(),
{
    if segments.len() == 0 {
        None
    } else if segments.len() == 1 {
        node.child(segments[0])
    } else {
        match node.child(segments[0]) {
            Some(below) => resolve(below, segments.skip(1)),
            None => None,
        }
    }
}

/// `found`, unless it stands for no value.
pub open spec fn usable(found: Option<Node>) -> Option<Node> {
    match found {
        Some(node) => if node.is_missing() {
            None
        } else {
            Some(node)
        },
        None => None,
    }
}

/// The node that the first of `alternatives` to lead to a usable node leads to.
pub open spec fn lookup(node: Node, alternatives: Seq<Seq<Seq<char>>>) -> Option<Node>
    decreases alternatives.len(),
{
    if alternatives.len() == 0 {
        None
    } else {
        match usable(resolve(node, alternatives[0])) {
            Some(found) => Some(found),
            None => lookup(node, alternatives.skip(1)),
        }
    }
}

/// The node that the expression `expr` finds in the document under `root`.
pub open spec fn find(root: Node, expr: Seq<char>) -> Option<Node> {
    lookup(root, alternatives_of(expr))
}

/// `found` as a borrowed node.
pub open spec fn borrowed<'a>(found: Option<Node>) -> Option<&'a Node> {
    match found {
        Some(node) => Some(&node),
        None => None,
    }
}

/// Walks from `data` down the segments of `path`: by key through a hash, by index through
/// an array. `None` where a step finds nothing, and for no segments.
pub fn walk<'a>(data: &'a Node, path: &[&str]) -> (found: Option<&'a Node>)
    ensures
        found == borrowed(resolve(*data, texts(path@))),
    decreases path@.len(),
{
    if path.len() == 0 {
        None
    } else {
        let below = data.step(path[0]);
        if path.len() == 1 {
            below
        } else {
            match below {
                Some(node) => {
                    let remainder = slice_subrange(path, 1, path.len());
                    assert(texts(remainder@) =~= texts(path@).skip(1));
                    walk(node, remainder)
                },
                None => None,
            }
        }
    }
}

/// Whether `result` is the `Invalid` error for `label` and `node`.
pub open spec fn is_invalid<T>(result: FieldResult<T>, label: Seq<char>, node: Node) -> bool {
    result matches Err(FieldError::Invalid(message)) && message@ == invalid_message(
        label,
        debug_text(node),
    )
}

/// Whether `s` is `yes`, in any mix of upper and lower case.
pub open spec fn is_yes(s: Seq<char>) -> bool {
    &&& s.len() == 3
    &&& (s[0] == 'y' || s[0] == 'Y')
    &&& (s[1] == 'e' || s[1] == 'E')
    &&& (s[2] == 's' || s[2] == 'S')
}

/// The truth value that the lenient reading gives a node: that of a `Boolean`; for a
/// `String`, whether it is `yes`, so that every other string is `false`.
pub open spec fn lenient_truth(node: Node) -> Option<bool> {
    match node {
        Node::Boolean(b) => Some(b),
        Node::String(s) => Some(is_yes(s@)),
        _ => None,
    }
}

/// The date that a node spells: that of a `String` in the form `dd.mm.YYYY`.
pub open spec fn date_of(node: Node) -> Option<Date> {
    match node {
        Node::String(s) => dmy_date(s@),
        _ => None,
    }
}

/// What `field` gives for the node that the lookup found and the coercion `parser`:
/// `Missing` where it found none; else what `conclude` makes of a result of `parser`.
pub open spec fn parsed_field<'a, T, F: FnOnce(&'a Node) -> Option<T>>(
    found: Option<Node>,
    label: Seq<char>,
    parser: F,
    result: FieldResult<T>,
) -> bool {
    match found {
        None => result == Err::<T, FieldError>(FieldError::Missing),
        Some(node) => exists|coerced: Option<T>|
            {
                &&& #[trigger] parser.ensures((&node,), coerced)
                &&& coercion_result(node, label, coerced, result)
            },
    }
}

/// What `get_str` gives for the node that the lookup found.
pub open spec fn str_field(found: Option<Node>, result: FieldResult<&str>) -> bool {
    match found {
        None => result == Err::<&str, FieldError>(FieldError::Missing),
        Some(Node::String(s)) => result matches Ok(text) && text@ == s@,
        Some(node) => is_invalid(result, "not a string"@, node),
    }
}

/// What `get_string` gives for the node that the lookup found.
pub open spec fn string_field(found: Option<Node>, result: FieldResult<String>) -> bool {
    match found {
        None => result == Err::<String, FieldError>(FieldError::Missing),
        Some(Node::String(s)) => result matches Ok(text) && text@ == s@,
        Some(node) => is_invalid(result, "not a string"@, node),
    }
}

/// What `get_int` gives for the node that the lookup found.
pub open spec fn int_field(found: Option<Node>, result: FieldResult<i64>) -> bool {
    match found {
        None => result == Err::<i64, FieldError>(FieldError::Missing),
        Some(Node::Integer(n)) => result == Ok::<i64, FieldError>(n),
        Some(node) => is_invalid(result, "not an integer"@, node),
    }
}

/// What `get_dmy` gives for the node that the lookup found.
pub open spec fn dmy_field(found: Option<Node>, result: FieldResult<Date>) -> bool {
    match found {
        None => result == Err::<Date, FieldError>(FieldError::Missing),
        Some(node) => coercion_result(node, "not a date"@, date_of(node), result),
    }
}

/// What `get_bool` gives for the node that the lookup found.
pub open spec fn bool_field(found: Option<Node>, result: FieldResult<bool>) -> bool {
    match found {
        None => result == Err::<bool, FieldError>(FieldError::Missing),
        Some(node) => coercion_result(node, "not a boolean"@, lenient_truth(node), result),
    }
}

/// What `get_bool_strict` gives for the node that the lookup found.
pub open spec fn strict_bool_field(found: Option<Node>, result: FieldResult<bool>) -> bool {
    match found {
        None => result == Err::<bool, FieldError>(FieldError::Missing),
        Some(Node::Boolean(b)) => result == Ok::<bool, FieldError>(b),
        Some(node) => is_invalid(result, "not a boolean"@, node),
    }
}

/// What `get_hash` gives for the node that the lookup found.
pub open spec fn hash_field(found: Option<Node>, result: FieldResult<&Mapping>) -> bool {
    match found {
        None => result == Err::<&Mapping, FieldError>(FieldError::Missing),
        Some(Node::Hash(h)) => result == Ok::<&Mapping, FieldError>(&h),
        Some(node) => is_invalid(result, "not a hash"@, node),
    }
}

/// What `get_vec` gives for the node that the lookup found.
pub open spec fn vec_field(found: Option<Node>, result: FieldResult<&Vec<Node>>) -> bool {
    match found {
        None => result == Err::<&Vec<Node>, FieldError>(FieldError::Missing),
        Some(Node::Array(v)) => result == Ok::<&Vec<Node>, FieldError>(&v),
        Some(node) => is_invalid(result, "not a vector"@, node),
    }
}

/// Decides `is_yes`.
pub fn text_is_yes(text: &str) -> (yes: bool)
    ensures
        yes == is_yes(text@),
{
    if text.unicode_len() != 3 {
        return false;
    }
    let y = text.get_char(0);
    let e = text.get_char(1);
    let s = text.get_char(2);
    (y == 'y' || y == 'Y') && (e == 'e' || e == 'E') && (s == 's' || s == 'S')
}

/// Reads a node as a truth value, leniently.
pub fn lenient_bool(node: &Node) -> (truth: Option<bool>)
    ensures
        truth == lenient_truth(*node),
{
    match node.as_bool() {
        Some(b) => Some(b),
        None => match node.as_str() {
            Some(text) => Some(text_is_yes(text)),
            None => None,
        },
    }
}

/// Reads a node as a date written as day, month and year.
pub fn dmy_of(node: &Node) -> (date: Option<Date>)
    ensures
        date == date_of(*node),
{
    match node.as_str() {
        Some(text) => parse_dmy_date(text),
        None => None,
    }
}

/// Access to a document by paths such as `users/clients/23/name` or `users.clients.23.name`.
///
/// An implementor writes `data` and has all the rest. Nothing is asked of `data`, so
/// each lookup states its result for the root that `data` handed it: for some `root`
/// that a call of `data` can give. Where `data` gives one root only, as it does for
/// `Node`, that pins the result.
pub trait PathFinder {
    /// The root of the document.
    fn data(&self) -> &Node;

    /// The node that the first alternative to lead to a usable node leads to.
    fn get<'a>(&'a self, paths: &YPaths) -> (found: Option<&'a Node>)
        ensures
            exists|root: &Node| #[trigger]
                call_ensures(Self::data, (self,), root) && found == borrowed(
                    lookup(*root, paths@),
                ),
    {
        let alternatives = paths.alternatives();
        let root = self.data();
        let mut i: usize = 0;
        assert(paths@.skip(0) =~= paths@);
        while i < alternatives.len()
            invariant
                i <= alternatives@.len(),
                call_ensures(Self::data, (self,), root),
                path_views(alternatives@) == paths@,
                lookup(*root, paths@) == lookup(*root, paths@.skip(i as int)),
            decreases alternatives@.len() - i,
        {
            assert(paths@.skip(i as int)[0] == alternatives@[i as int]@);
            assert(paths@.skip(i as int).skip(1) =~= paths@.skip(i + 1));
            match self.get_direct(root, &alternatives[i]) {
                Some(found) => {
                    return Some(found);
                },
                None => {},
            }
            i += 1;
        }
        None
    }

    /// The node that `path` leads to from `data`, unless it stands for no value.
    fn get_direct<'a>(&'a self, data: &'a Node, path: &YPath) -> (found: Option<&'a Node>)
        ensures
            found == borrowed(usable(resolve(*data, path@))),
    {
        match self.get_path(data, path.elements()) {
            Some(Node::BadValue) | Some(Node::Null) => None,
            content => content,
        }
    }

    /// The node that the segments of `path` lead to from `data`.
    fn get_path<'a>(&'a self, data: &'a Node, path: &[&str]) -> (found: Option<&'a Node>)
        ensures
            found == borrowed(resolve(*data, texts(path@))),
    {
        walk(data, path)
    }

    /// Looks `path` up and hands the node found to `parser`: `Missing` where no alternative
    /// leads to a usable node, `Invalid` with a message that starts with `err` where
    /// `parser` makes nothing of the node, else what `parser` made of it. Here and in the
    /// getters below, `path` holds no whitespace.
    fn field<'a, T, F>(&'a self, path: &str, err: &str, parser: F) -> (result: FieldResult<T>)
        where
            F: FnOnce(&'a Node) -> Option<T>,
        requires
            !has_whitespace(path@),
            forall|node: &'a Node| parser.requires((node,)),
        ensures
            exists|root: &Node| #[trigger]
                call_ensures(Self::data, (self,), root) && parsed_field(
                    find(*root, path@),
                    err@,
                    parser,
                    result,
                ),
    {
        let paths = YPaths::new(path);
        match self.get(&paths) {
            None => Err(FieldError::Missing),
            Some(node) => {
                let coerced = parser(node);
                conclude(node, err, coerced)
            },
        }
    }

    /// The text of the `String` node that `path` leads to.
    fn get_str<'a>(&'a self, path: &str) -> (result: FieldResult<&'a str>)
        requires
            !has_whitespace(path@),
        ensures
            exists|root: &Node| #[trigger]
                call_ensures(Self::data, (self,), root) && str_field(find(*root, path@), result),
    {
        self.field(path, "not a string", Node::as_str)
    }

    /// A copy of the text of the `String` node that `path` leads to.
    fn get_string<'a>(&'a self, path: &str) -> (result: FieldResult<String>)
        requires
            !has_whitespace(path@),
        ensures
            exists|root: &Node| #[trigger]
                call_ensures(Self::data, (self,), root) && string_field(find(*root, path@), result),
    {
        match self.field(path, "not a string", Node::as_str) {
            Ok(text) => Ok(text.to_owned()),
            Err(error) => Err(error),
        }
    }

    /// The number of the `Integer` node that `path` leads to.
    fn get_int<'a>(&'a self, path: &str) -> (result: FieldResult<i64>)
        requires
            !has_whitespace(path@),
        ensures
            exists|root: &Node| #[trigger]
                call_ensures(Self::data, (self,), root) && int_field(find(*root, path@), result),
    {
        self.field(path, "not an integer", Node::as_i64)
    }

    /// The date that the `String` node that `path` leads to spells as `dd.mm.YYYY`.
    fn get_dmy<'a>(&'a self, path: &str) -> (result: FieldResult<Date>)
        requires
            !has_whitespace(path@),
        ensures
            exists|root: &Node| #[trigger]
                call_ensures(Self::data, (self,), root) && dmy_field(find(*root, path@), result),
    {
        self.field(path, "not a date", dmy_of)
    }

    /// The truth value of the node that `path` leads to, read leniently: a `Boolean` as it
    /// is, the string `yes` in any case as `true`, every other string as `false`.
    fn get_bool<'a>(&'a self, path: &str) -> (result: FieldResult<bool>)
        requires
            !has_whitespace(path@),
        ensures
            exists|root: &Node| #[trigger]
                call_ensures(Self::data, (self,), root) && bool_field(find(*root, path@), result),
    {
        self.field(path, "not a boolean", lenient_bool)
    }

    /// The truth value of the `Boolean` node that `path` leads to.
    fn get_bool_strict<'a>(&'a self, path: &str) -> (result: FieldResult<bool>)
        requires
            !has_whitespace(path@),
        ensures
            exists|root: &Node| #[trigger]
                call_ensures(Self::data, (self,), root) && strict_bool_field(
                    find(*root, path@),
                    result,
                ),
    {
        self.field(path, "not a boolean", Node::as_bool)
    }

    /// The mapping of the `Hash` node that `path` leads to.
    fn get_hash<'a>(&'a self, path: &str) -> (result: FieldResult<&'a Mapping>)
        requires
            !has_whitespace(path@),
        ensures
            exists|root: &Node| #[trigger]
                call_ensures(Self::data, (self,), root) && hash_field(find(*root, path@), result),
    {
        self.field(path, "not a hash", Node::as_hash)
    }

    /// The items of the `Array` node that `path` leads to.
    fn get_vec<'a>(&'a self, path: &str) -> (result: FieldResult<&'a Vec<Node>>)
        requires
            !has_whitespace(path@),
        ensures
            exists|root: &Node| #[trigger]
                call_ensures(Self::data, (self,), root) && vec_field(find(*root, path@), result),
    {
        self.field(path, "not a vector", Node::as_vec)
    }
}

/// A node is a document of its own, with itself as the root.
impl PathFinder for Node {
    fn data(&self) -> (root: &Node)
        ensures
            *root == *self,
    {
        self
    }
}

} // verus!
