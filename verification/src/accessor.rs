//! The capability itself: reading and writing by path, and the leaves that end a path.

use vstd::prelude::*;
use crate::double::Double;
use crate::error::{ErrorView, UpdateError};
use crate::model::Tree;
use crate::path::{split_dots, split_key};
use crate::value::{Value, ValueView, DOUBLE_TYPE, INTEGER_TYPE, STRING_TYPE};

verus! {

/// The mathematical content of what a read returns.
pub open spec fn read_view(r: Result<Value, UpdateError>) -> Result<ValueView, ErrorView> {
    match r {
        Ok(v) => Ok(v@),
        Err(e) => Err(e@),
    }
}

/// A type whose values can be read and written through a path of string keys.
///
/// An implementation names the [`Tree`] that models a value, and its three operations are
/// held to what the model says of that tree: the scalar kinds implement it as leaves, and
/// a record implements it by handing the rest of the path to the field that the first
/// segment names (see [`crate::record::select_field`]).
pub trait StringlyTyped: Sized {
    /// The model of this value. A verified implementation names it; the default names no
    /// tree in particular, so that nothing is known of an implementation that keeps it.
    open spec fn tree(&self) -> Tree {
        arbitrary()
    }

    /// The tag of the implementing type: the same text for every value of it. As for
    /// `tree`, a verified implementation names it.
    open spec fn type_tag() -> Seq<char> {
        arbitrary()
    }

    /// Reads the value that the dotted `key` leads to.
    fn get(&self, key: &str) -> (r: Result<Value, UpdateError>)
        ensures
            read_view(r) == self.tree().get(split_dots(key@)),
    {
        let segments = split_key(key);
        let keys = segments.as_slice();
        assert(keys.deep_view() =~= segments.deep_view());
        self.get_value(keys)
    }

    /// Writes `value` to where the dotted `key` leads.
    fn set(&mut self, key: &str, value: Value) -> (r: Result<(), UpdateError>)
        ensures
            match old(self).tree().set(split_dots(key@), value@) {
                Ok(after) => r is Ok && final(self).tree() == after,
                Err(e) => r matches Err(x) && x@ == e && *final(self) == *old(self),
            },
    {
        let segments = split_key(key);
        let keys = segments.as_slice();
        assert(keys.deep_view() =~= segments.deep_view());
        self.set_value(keys, value)
    }

    /// Writes `value` to where the path `keys` leads. The write happens when the whole
    /// path resolves to a leaf of the value's kind; otherwise nothing is changed and the
    /// error says why. A path that ends at a record is refused with `CantSerialize`, for
    /// a write as for a read.
    fn set_value(&mut self, keys: &[&str], value: Value) -> (r: Result<(), UpdateError>)
        ensures
            match old(self).tree().set(keys.deep_view(), value@) {
                Ok(after) => r is Ok && final(self).tree() == after,
                Err(e) => r matches Err(x) && x@ == e && *final(self) == *old(self),
            },
    ;

    /// Reads the value that the path `keys` leads to.
    fn get_value(&self, keys: &[&str]) -> (r: Result<Value, UpdateError>)
        ensures
            read_view(r) == self.tree().get(keys.deep_view()),
    ;

    /// The tag of a leaf's kind, or the declared name of a record: a constant of the type,
    /// which the model of every value carries.
    fn data_type(&self) -> (tag: &'static str)
        ensures
            tag@ == Self::type_tag(),
            tag@ == self.tree().data_type(),
    ;
}

/// Reading is repeatable: whatever two reads of one value along one path return, the two
/// results have the same content, for both are the one result that the value's model
/// gives for that path.
pub proof fn lemma_get_repeatable<T: StringlyTyped>(
    target: &T,
    keys: Seq<Seq<char>>,
    first: Result<Value, UpdateError>,
    second: Result<Value, UpdateError>,
)
    requires
        read_view(first) == target.tree().get(keys),
        read_view(second) == target.tree().get(keys),
    ensures
        read_view(first) == read_view(second),
{
}

/// A leaf accepts the empty path only.
pub fn end_of_path(keys: &[&str]) -> (r: Result<(), UpdateError>)
    ensures
        keys.deep_view().len() == 0 ==> r is Ok,
        keys.deep_view().len() > 0 ==> r == Err::<(), UpdateError>(
            UpdateError::TooManyKeys { elements_remaning: keys.len() },
        ),
{
    if keys.len() > 0 {
        Err(UpdateError::TooManyKeys { elements_remaning: keys.len() })
    } else {
        Ok(())
    }
}

impl StringlyTyped for i64 {
    open spec fn type_tag() -> Seq<char> {
        INTEGER_TYPE@
    }

    open spec fn tree(&self) -> Tree {
        Tree::Leaf(ValueView::Integer(*self))
    }

    fn set_value(&mut self, keys: &[&str], value: Value) -> (r: Result<(), UpdateError>) {
        match end_of_path(keys) {
            Err(e) => Err(e),
            Ok(()) => match value {
                Value::Integer(v) => {
                    *self = v;
                    Ok(())
                },
                other => Err(
                    UpdateError::TypeError { expected: INTEGER_TYPE, found: other.data_type() },
                ),
            },
        }
    }

    fn get_value(&self, keys: &[&str]) -> (r: Result<Value, UpdateError>) {
        match end_of_path(keys) {
            Err(e) => Err(e),
            Ok(()) => Ok(Value::Integer(*self)),
        }
    }

    fn data_type(&self) -> (tag: &'static str) {
        INTEGER_TYPE
    }
}

impl StringlyTyped for Double {
    open spec fn type_tag() -> Seq<char> {
        DOUBLE_TYPE@
    }

    open spec fn tree(&self) -> Tree {
        Tree::Leaf(ValueView::Double(*self))
    }

    fn set_value(&mut self, keys: &[&str], value: Value) -> (r: Result<(), UpdateError>) {
        match end_of_path(keys) {
            Err(e) => Err(e),
            Ok(()) => match value {
                Value::Double(v) => {
                    *self = v;
                    Ok(())
                },
                other => Err(
                    UpdateError::TypeError { expected: DOUBLE_TYPE, found: other.data_type() },
                ),
            },
        }
    }

    fn get_value(&self, keys: &[&str]) -> (r: Result<Value, UpdateError>) {
        match end_of_path(keys) {
            Err(e) => Err(e),
            Ok(()) => Ok(Value::Double(*self)),
        }
    }

    fn data_type(&self) -> (tag: &'static str) {
        DOUBLE_TYPE
    }
}

impl StringlyTyped for String {
    open spec fn type_tag() -> Seq<char> {
        STRING_TYPE@
    }

    open spec fn tree(&self) -> Tree {
        Tree::Leaf(ValueView::String(self@))
    }

    fn set_value(&mut self, keys: &[&str], value: Value) -> (r: Result<(), UpdateError>) {
        match end_of_path(keys) {
            Err(e) => Err(e),
            Ok(()) => match value {
                Value::String(v) => {
                    *self = v;
                    Ok(())
                },
                other => Err(
                    UpdateError::TypeError { expected: STRING_TYPE, found: other.data_type() },
                ),
            },
        }
    }

    fn get_value(&self, keys: &[&str]) -> (r: Result<Value, UpdateError>) {
        match end_of_path(keys) {
            Err(e) => Err(e),
            Ok(()) => Ok(Value::String(self.clone())),
        }
    }

    fn data_type(&self) -> (tag: &'static str) {
        STRING_TYPE
    }
}

} // verus!
