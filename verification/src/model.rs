//! The mathematical model of a nested record, and of reading and writing along a path.
//!
//! Every value that can be reached by a path is modelled as a [`Tree`]: a leaf holds one
//! scalar, a record holds its named fields in the order of their declaration. Reading and
//! writing are defined once, on trees, by consuming one segment of the path per record.

use vstd::prelude::*;
use crate::error::ErrorView;
use crate::value::{lemma_same_kind_same_tag, ValueView};

verus! {

/// One declared field of a record: its name and what it holds.
pub struct Field {
    pub name: Seq<char>,
    pub value: Tree,
}

/// A value as the path protocol sees it.
pub enum Tree {
    /// A scalar of one fixed kind.
    Leaf(ValueView),
    /// A named record with its fields in declaration order.
    Record { name: Seq<char>, fields: Seq<Field> },
}

/// The names of the fields, in declaration order.
pub open spec fn names_of(fields: Seq<Field>) -> Seq<Seq<char>> {
    Seq::new(fields.len(), |i: int| fields[i].name)
}

/// `i` is the first place in `names` where `key` stands. Names are compared character by
/// character, so upper and lower case differ.
pub open spec fn first_match(names: Seq<Seq<char>>, key: Seq<char>, i: int) -> bool {
    &&& 0 <= i < names.len()
    &&& names[i] == key
    &&& forall|j: int| 0 <= j < i ==> names[j] != key
}

/// The first place in `names` where `key` stands, if it stands anywhere.
pub open spec fn position(names: Seq<Seq<char>>, key: Seq<char>) -> Option<int> {
    if exists|i: int| first_match(names, key, i) {
        Some(choose|i: int| first_match(names, key, i))
    } else {
        None
    }
}

/// The step that a record takes on a path: the index of the field that the first segment
/// names, or the reason there is none.
///
/// An empty path stops at the record itself, which no scalar can stand for: both a read
/// and a write are then refused with `CantSerialize` and the record's name.
pub open spec fn select(name: Seq<char>, names: Seq<Seq<char>>, keys: Seq<Seq<char>>) -> Result<
    int,
    ErrorView,
> {
    if keys.len() == 0 {
        Err(ErrorView::CantSerialize { data_type: name })
    } else {
        match position(names, keys[0]) {
            Some(i) => Ok(i),
            None => Err(ErrorView::UnknownField { valid_fields: names }),
        }
    }
}

impl Tree {
    /// The tag of a leaf's kind, or the declared name of a record.
    pub open spec fn data_type(self) -> Seq<char> {
        match self {
            Tree::Leaf(v) => v.data_type(),
            Tree::Record { name, fields } => name,
        }
    }

    /// What a read along `keys` yields.
    pub open spec fn get(self, keys: Seq<Seq<char>>) -> Result<ValueView, ErrorView>
        decreases keys.len(),
    {
        match self {
            Tree::Leaf(v) => if keys.len() == 0 {
                Ok(v)
            } else {
                Err(ErrorView::TooManyKeys { elements_remaning: keys.len() })
            },
            Tree::Record { name, fields } => match select(name, names_of(fields), keys) {
                Ok(i) => fields[i].value.get(keys.drop_first()),
                Err(e) => Err(e),
            },
        }
    }

    /// What a write of `value` along `keys` yields: the tree after the write, or the
    /// reason the write was refused. A refused write changes nothing.
    pub open spec fn set(self, keys: Seq<Seq<char>>, value: ValueView) -> Result<Tree, ErrorView>
        decreases keys.len(),
    {
        match self {
            Tree::Leaf(current) => if keys.len() != 0 {
                Err(ErrorView::TooManyKeys { elements_remaning: keys.len() })
            } else if value.same_kind(current) {
                Ok(Tree::Leaf(value))
            } else {
                Err(
                    ErrorView::TypeError {
                        found: value.data_type(),
                        expected: current.data_type(),
                    },
                )
            },
            Tree::Record { name, fields } => match select(name, names_of(fields), keys) {
                Ok(i) => match fields[i].value.set(keys.drop_first(), value) {
                    Ok(child) => Ok(
                        Tree::Record {
                            name,
                            fields: fields.update(i, Field { name: fields[i].name, value: child }),
                        },
                    ),
                    Err(e) => Err(e),
                },
                Err(e) => Err(e),
            },
        }
    }

    /// Two trees have one shape when they differ at most in the scalars that their
    /// leaves hold: same kinds, same record names, same field names.
    pub open spec fn same_shape(self, other: Tree) -> bool
        decreases self,
    {
        match (self, other) {
            (Tree::Leaf(a), Tree::Leaf(b)) => a.same_kind(b),
            (Tree::Record { name: n1, fields: f1 }, Tree::Record { name: n2, fields: f2 }) => {
                &&& n1 == n2
                &&& f1.len() == f2.len()
                &&& forall|i: int|
                    0 <= i < f1.len() ==> {
                        &&& (#[trigger] f1[i]).name == f2[i].name
                        &&& f1[i].value.same_shape(f2[i].value)
                    }
            },
            _ => false,
        }
    }
}

/// The first match is the position.
pub proof fn lemma_position_found(names: Seq<Seq<char>>, key: Seq<char>, i: int)
    requires
        first_match(names, key, i),
    ensures
        position(names, key) == Some(i),
{
    let k = choose|k: int| first_match(names, key, k);
    if k < i {
        assert(names[k] != key);
    } else if i < k {
        assert(names[i] != key);
    }
}

/// A key that is no name has no position; a position is always a first match.
pub proof fn lemma_position_sound(names: Seq<Seq<char>>, key: Seq<char>)
    ensures
        match position(names, key) {
            Some(i) => first_match(names, key, i),
            None => forall|j: int| 0 <= j < names.len() ==> names[j] != key,
        },
{
    if position(names, key) is None {
        assert forall|j: int| 0 <= j < names.len() implies names[j] != key by {
            if names[j] == key {
                lemma_some_first_match(names, key, j);
            }
        }
    }
}

/// Where a key stands at all, it stands somewhere first.
proof fn lemma_some_first_match(names: Seq<Seq<char>>, key: Seq<char>, j: int)
    requires
        0 <= j < names.len(),
        names[j] == key,
    ensures
        exists|i: int| first_match(names, key, i),
    decreases j,
{
    if exists|k: int| 0 <= k < j && names[k] == key {
        let k = choose|k: int| 0 <= k < j && names[k] == key;
        lemma_some_first_match(names, key, k);
    } else {
        assert(first_match(names, key, j));
    }
}

/// A leaf that is written with a value of its own kind, at the empty path, hands that
/// value back when it is read, unchanged.
pub proof fn lemma_leaf_round_trip(current: ValueView, value: ValueView)
    requires
        value.same_kind(current),
    ensures
        Tree::Leaf(current).set(Seq::empty(), value) == Ok::<Tree, ErrorView>(Tree::Leaf(value)),
        Tree::Leaf(value).get(Seq::empty()) == Ok::<ValueView, ErrorView>(value),
{
}

/// Whatever the tree and the path: a value that was written is the value that is read
/// along the same path afterwards.
pub proof fn lemma_set_then_get(tree: Tree, keys: Seq<Seq<char>>, value: ValueView)
    ensures
        tree.set(keys, value) matches Ok(after) ==> after.get(keys) == Ok::<ValueView, ErrorView>(
            value,
        ),
    decreases keys.len(),
{
    match tree {
        Tree::Leaf(_) => {},
        Tree::Record { name, fields } => {
            if keys.len() > 0 {
                let names = names_of(fields);
                if let Ok(i) = select(name, names, keys) {
                    lemma_position_sound(names, keys[0]);
                    let rest = keys.drop_first();
                    lemma_set_then_get(fields[i].value, rest, value);
                    if let Ok(child) = fields[i].value.set(rest, value) {
                        let updated = fields.update(i, Field { name: fields[i].name, value: child });
                        assert(names_of(updated) =~= names);
                    }
                }
            }
        },
    }
}

/// A record answers a read whose path starts with the name of one of its fields exactly
/// as that field answers the rest of the path.
pub proof fn lemma_get_descends(name: Seq<char>, fields: Seq<Field>, i: int, rest: Seq<Seq<char>>)
    requires
        first_match(names_of(fields), fields[i].name, i),
    ensures
        (Tree::Record { name, fields }).get(seq![fields[i].name] + rest) == fields[i].value.get(
            rest,
        ),
{
    let keys = seq![fields[i].name] + rest;
    lemma_position_found(names_of(fields), keys[0], i);
    assert(keys.drop_first() =~= rest);
}

/// A record answers a write whose path starts with the name of one of its fields exactly
/// as that field answers the rest of the path: it fails where the field fails, with the
/// same error, and otherwise only that field changes, into what the field's own write
/// gives.
pub proof fn lemma_set_descends(
    name: Seq<char>,
    fields: Seq<Field>,
    i: int,
    rest: Seq<Seq<char>>,
    value: ValueView,
)
    requires
        first_match(names_of(fields), fields[i].name, i),
    ensures
        (Tree::Record { name, fields }).set(seq![fields[i].name] + rest, value) == (
        match fields[i].value.set(rest, value) {
            Ok(child) => Ok(
                Tree::Record {
                    name,
                    fields: fields.update(i, Field { name: fields[i].name, value: child }),
                },
            ),
            Err(e) => Err(e),
        }),
{
    let keys = seq![fields[i].name] + rest;
    lemma_position_found(names_of(fields), keys[0], i);
    assert(keys.drop_first() =~= rest);
}

/// A leaf refuses every path that is not empty, for a read and for a write alike, and
/// reports how many segments were left.
pub proof fn lemma_leaf_over_indexing(current: ValueView, keys: Seq<Seq<char>>, value: ValueView)
    requires
        keys.len() > 0,
    ensures
        Tree::Leaf(current).get(keys) == Err::<ValueView, ErrorView>(
            ErrorView::TooManyKeys { elements_remaning: keys.len() },
        ),
        Tree::Leaf(current).set(keys, value) == Err::<Tree, ErrorView>(
            ErrorView::TooManyKeys { elements_remaning: keys.len() },
        ),
{
}

/// A leaf refuses a value of another kind than its own and names both kinds, which are
/// different texts: what it expected and what it found.
pub proof fn lemma_leaf_type_mismatch(current: ValueView, value: ValueView)
    requires
        !value.same_kind(current),
    ensures
        Tree::Leaf(current).set(Seq::empty(), value) == Err::<Tree, ErrorView>(
            ErrorView::TypeError { found: value.data_type(), expected: current.data_type() },
        ),
        value.data_type() != current.data_type(),
{
    lemma_same_kind_same_tag(value, current);
}

/// A record refuses the empty path, for a read and for a write alike, and gives its own
/// name.
pub proof fn lemma_record_empty_path(name: Seq<char>, fields: Seq<Field>, value: ValueView)
    ensures
        (Tree::Record { name, fields }).get(Seq::empty()) == Err::<ValueView, ErrorView>(
            ErrorView::CantSerialize { data_type: name },
        ),
        (Tree::Record { name, fields }).set(Seq::empty(), value) == Err::<Tree, ErrorView>(
            ErrorView::CantSerialize { data_type: name },
        ),
{
}

/// A record none of whose fields is named by the first segment refuses the path, for a
/// read and for a write alike, and lists every name it has.
pub proof fn lemma_unknown_field(name: Seq<char>, fields: Seq<Field>, keys: Seq<Seq<char>>)
    requires
        keys.len() > 0,
        forall|j: int| 0 <= j < fields.len() ==> fields[j].name != keys[0],
    ensures
        (Tree::Record { name, fields }).get(keys) == Err::<ValueView, ErrorView>(
            ErrorView::UnknownField { valid_fields: names_of(fields) },
        ),
        forall|value: ValueView|
            (#[trigger] (Tree::Record { name, fields }).set(keys, value)) == Err::<Tree, ErrorView>(
                ErrorView::UnknownField { valid_fields: names_of(fields) },
            ),
{
    lemma_position_sound(names_of(fields), keys[0]);
    if let Some(i) = position(names_of(fields), keys[0]) {
        assert(names_of(fields)[i] == fields[i].name);
    }
}

/// A write never changes the shape of a tree: kinds and names stay, only one leaf's
/// scalar is replaced.
pub proof fn lemma_set_keeps_shape(tree: Tree, keys: Seq<Seq<char>>, value: ValueView)
    ensures
        tree.set(keys, value) matches Ok(after) ==> tree.same_shape(after),
    decreases keys.len(),
{
    match tree {
        Tree::Leaf(current) => {},
        Tree::Record { name, fields } => {
            if keys.len() > 0 {
                let names = names_of(fields);
                if let Ok(i) = select(name, names, keys) {
                    lemma_position_sound(names, keys[0]);
                    let rest = keys.drop_first();
                    lemma_set_keeps_shape(fields[i].value, rest, value);
                    if let Ok(child) = fields[i].value.set(rest, value) {
                        let updated = fields.update(i, Field { name: fields[i].name, value: child });
                        assert forall|k: int| 0 <= k < fields.len() implies {
                            &&& (#[trigger] fields[k]).name == updated[k].name
                            &&& fields[k].value.same_shape(updated[k].value)
                        } by {
                            if k != i {
                                lemma_same_shape_reflexive(fields[k].value);
                            }
                        }
                    }
                }
            }
        },
    }
}

/// Every tree has its own shape.
pub proof fn lemma_same_shape_reflexive(tree: Tree)
    ensures
        tree.same_shape(tree),
    decreases tree,
{
    match tree {
        Tree::Leaf(_) => {},
        Tree::Record { name, fields } => {
            assert forall|i: int| 0 <= i < fields.len() implies (#[trigger] fields[i]).value.same_shape(
                fields[i].value,
            ) by {
                lemma_same_shape_reflexive(fields[i].value);
            }
        },
    }
}

} // verus!
