//! The document tree: hashes, arrays and scalars.

use crate::index::{index_of, parse_index};
use vstd::prelude::*;

verus! {

/// One node of a document tree.
#[derive(Debug, PartialEq, Eq)]
pub enum Node {
    /// A mapping from string keys to nodes.
    Hash(Mapping),
    /// An ordered sequence of nodes.
    Array(Vec<Node>),
    /// A string scalar.
    String(String),
    /// An integer scalar.
    Integer(i64),
    /// A floating-point scalar, kept as the text it was written as.
    Float(String),
    /// A boolean scalar.
    Boolean(bool),
    /// An explicit null.
    Null,
    /// The marker a parser leaves where it could not produce a value.
    BadValue,
}

/// A mapping from string keys to nodes. No key occurs twice.
#[derive(Debug, PartialEq, Eq)]
pub struct Mapping {
    entries: Vec<(String, Node)>,
}

/// Whether no two entries of `entries` have the same key.
spec fn keys_are_distinct(entries: Seq<(String, Node)>) -> bool {
    forall|i: int, j: int|
        0 <= i < j < entries.len() ==> (#[trigger] entries[i]).0@ != (#[trigger] entries[j]).0@
}

/// Whether `entries` has `key` at position `i`.
spec fn key_at(entries: Seq<(String, Node)>, key: Seq<char>, i: int) -> bool {
    0 <= i < entries.len() && entries[i].0@ == key
}

/// The mapping that `entries` stands for: each key with the node beside it.
spec fn mapping_of(entries: Seq<(String, Node)>) -> Map<Seq<char>, Node> {
    Map::new(
        |key: Seq<char>| exists|i: int| key_at(entries, key, i),
        |key: Seq<char>| entries[choose|i: int| key_at(entries, key, i)].1,
    )
}

/// With distinct keys, the mapping holds under the key of each entry the node of that entry.
proof fn lemma_mapping_holds_entry(entries: Seq<(String, Node)>, i: int)
    requires
        keys_are_distinct(entries),
        0 <= i < entries.len(),
    ensures
        mapping_of(entries).contains_key(entries[i].0@),
        mapping_of(entries)[entries[i].0@] == entries[i].1,
{
    let key = entries[i].0@;
    assert(key_at(entries, key, i));
    let chosen = choose|j: int| key_at(entries, key, j);
    assert(key_at(entries, key, chosen));
    if chosen < i {
        assert(entries[chosen].0@ != entries[i].0@);
    } else if i < chosen {
        assert(entries[i].0@ != entries[chosen].0@);
    }
}

/// Putting `(key, value)` in the place of an entry with the same key, or behind all entries
/// where there is none, keeps the keys distinct and stores `value` under `key`.
proof fn lemma_mapping_insert(
    entries: Seq<(String, Node)>,
    after: Seq<(String, Node)>,
    key: String,
    value: Node,
    i: int,
)
    requires
        keys_are_distinct(entries),
        0 <= i <= entries.len(),
        forall|j: int| 0 <= j < i ==> (#[trigger] entries[j]).0@ != key@,
        i < entries.len() ==> entries[i].0@ == key@ && after == entries.update(i, (key, value)),
        i == entries.len() ==> after == entries.push((key, value)),
    ensures
        keys_are_distinct(after),
        mapping_of(after) == mapping_of(entries).insert(key@, value),
{
    assert forall|a: int, b: int| 0 <= a < b < after.len() implies
        (#[trigger] after[a]).0@ != (#[trigger] after[b]).0@ by {
        if i < entries.len() {
            assert(after[a].0@ == entries[a].0@);
            assert(after[b].0@ == entries[b].0@);
        } else if b == i {
            assert(after[a] == entries[a]);
        } else {
            assert(after[a] == entries[a]);
            assert(after[b] == entries[b]);
        }
    }
    let before_map = mapping_of(entries).insert(key@, value);
    let after_map = mapping_of(after);
    assert forall|k: Seq<char>| before_map.contains_key(k) implies
        #[trigger] after_map.contains_key(k) by {
        if k == key@ {
            assert(key_at(after, k, i));
        } else {
            let j = choose|j: int| key_at(entries, k, j);
            assert(key_at(after, k, j));
        }
    }
    assert forall|k: Seq<char>| after_map.contains_key(k) implies
        #[trigger] before_map.contains_key(k) && after_map[k] == before_map[k] by {
        let j = choose|j: int| key_at(after, k, j);
        lemma_mapping_holds_entry(after, j);
        if j == i {
        } else {
            assert(after[j] == entries[j]);
            assert(key_at(entries, k, j));
            lemma_mapping_holds_entry(entries, j);
            if i < entries.len() {
                assert(entries[j].0@ != entries[i].0@);
            }
        }
    }
    assert(after_map =~= before_map);
}

impl View for Mapping {
    type V = Map<Seq<char>, Node>;

    closed spec fn view(&self) -> Map<Seq<char>, Node> {
        mapping_of(self.entries@)
    }
}

impl Mapping {
    #[verifier::type_invariant]
    spec fn keys_distinct(&self) -> bool {
        keys_are_distinct(self.entries@)
    }

    /// The empty mapping.
    pub fn new() -> (mapping: Mapping)
        ensures
            mapping@ == Map::<Seq<char>, Node>::empty(),
    {
        let mapping = Mapping { entries: Vec::new() };
        assert(mapping@ =~= Map::<Seq<char>, Node>::empty());
        mapping
    }

    /// Stores `value` under `key`, in place of what `key` had.
    pub fn insert(&mut self, key: String, value: Node)
        ensures
            final(self)@ == old(self)@.insert(key@, value),
    {
        proof {
            use_type_invariant(&*self);
        }
        let mut entries: Vec<(String, Node)> = Vec::new();
        core::mem::swap(&mut self.entries, &mut entries);
        let mut i: usize = 0;
        while i < entries.len() && !(entries[i].0 == key)
            invariant
                i <= entries@.len(),
                forall|j: int| 0 <= j < i ==> (#[trigger] entries@[j]).0@ != key@,
            decreases entries@.len() - i,
        {
            i += 1;
        }
        proof {
            let after = if i < entries@.len() {
                entries@.update(i as int, (key, value))
            } else {
                entries@.push((key, value))
            };
            lemma_mapping_insert(entries@, after, key, value, i as int);
        }
        if i < entries.len() {
            entries.set(i, (key, value));
        } else {
            entries.push((key, value));
        }
        core::mem::swap(&mut self.entries, &mut entries);
    }

    /// The node stored under `key`, if there is one.
    pub fn get<'a>(&'a self, key: &str) -> (found: Option<&'a Node>)
        ensures
            found == (if self@.contains_key(key@) {
                Some(&self@[key@])
            } else {
                None
            }),
    {
        proof {
            use_type_invariant(self);
        }
        let wanted = key.to_owned();
        let mut i: usize = 0;
        while i < self.entries.len()
            invariant
                i <= self.entries@.len(),
                wanted@ == key@,
                keys_are_distinct(self.entries@),
                forall|j: int| 0 <= j < i ==> (#[trigger] self.entries@[j]).0@ != key@,
            decreases self.entries@.len() - i,
        {
            if self.entries[i].0 == wanted {
                proof {
                    lemma_mapping_holds_entry(self.entries@, i as int);
                }
                return Some(&self.entries[i].1);
            }
            i += 1;
        }
        assert(forall|j: int| !key_at(self.entries@, key@, j));
        None
    }
}

impl Node {
    /// Whether the node stands for no value: an explicit null, or a parser's bad value.
    pub open spec fn is_missing(self) -> bool {
        self is Null || self is BadValue
    }

    /// The node one step below this one: under the key `segment` of a hash, at the index
    /// that `segment` names in an array. A scalar has nothing below it.
    pub open spec fn child(self, segment: Seq<char>) -> Option<Node> {
        match self {
            Node::Hash(hash) => if hash@.contains_key(segment) {
                Some(hash@[segment])
            } else {
                None
            },
            Node::Array(items) => match index_of(segment) {
                Some(index) => if index < items@.len() {
                    Some(items@[index as int])
                } else {
                    None
                },
                None => None,
            },
            _ => None,
        }
    }

    /// Takes one step down the tree, as `child` says.
    pub fn step<'a>(&'a self, segment: &str) -> (below: Option<&'a Node>)
        ensures
            below == match self.child(segment@) {
                Some(node) => Some(&node),
                None => None,
            },
    {
        match self {
            Node::Hash(hash) => hash.get(segment),
            Node::Array(items) => {
                let len = items.len();
                match parse_index(segment) {
                    Some(index) => if index < len {
                        Some(&items[index])
                    } else {
                        None
                    },
                    None => None,
                }
            },
            _ => None,
        }
    }

    /// The text of a `String` node.
    pub fn as_str<'a>(&'a self) -> (text: Option<&'a str>)
        ensures
            match self {
                Node::String(s) => text matches Some(t) && t@ == s@,
                _ => text is None,
            },
    {
        match self {
            Node::String(s) => Some(s.as_str()),
            _ => None,
        }
    }

    /// The number of an `Integer` node.
    pub fn as_i64(&self) -> (number: Option<i64>)
        ensures
            number == match self {
                Node::Integer(n) => Some(*n),
                _ => None,
            },
    {
        match self {
            Node::Integer(n) => Some(*n),
            _ => None,
        }
    }

    /// The truth value of a `Boolean` node.
    pub fn as_bool(&self) -> (truth: Option<bool>)
        ensures
            truth == match self {
                Node::Boolean(b) => Some(*b),
                _ => None,
            },
    {
        match self {
            Node::Boolean(b) => Some(*b),
            _ => None,
        }
    }

    /// The mapping of a `Hash` node.
    pub fn as_hash<'a>(&'a self) -> (mapping: Option<&'a Mapping>)
        ensures
            mapping == match self {
                Node::Hash(h) => Some(h),
                _ => None,
            },
    {
        match self {
            Node::Hash(h) => Some(h),
            _ => None,
        }
    }

    /// The items of an `Array` node.
    pub fn as_vec<'a>(&'a self) -> (items: Option<&'a Vec<Node>>)
        ensures
            items == match self {
                Node::Array(v) => Some(v),
                _ => None,
            },
    {
        match self {
            Node::Array(v) => Some(v),
            _ => None,
        }
    }
}

} // verus!
