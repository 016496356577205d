//! The dynamic value that crosses the boundary between a path and a typed field.

use vstd::prelude::*;
use vstd::string::StringExecFns;
use crate::double::Double;

verus! {

/// The tag of a double-precision leaf.
pub const DOUBLE_TYPE: &'static str = "double";

/// The tag of an integer leaf.
pub const INTEGER_TYPE: &'static str = "integer";

/// The tag of a text leaf.
pub const STRING_TYPE: &'static str = "string";

/// A dynamically typed scalar: exactly one of the kinds a leaf can hold.
#[derive(Debug, PartialEq)]
pub enum Value {
    Integer(i64),
    Double(Double),
    String(String),
}

/// The mathematical content of a [`Value`].
pub enum ValueView {
    Integer(i64),
    Double(Double),
    String(Seq<char>),
}

impl ValueView {
    /// The tag of the kind that the value belongs to.
    pub open spec fn data_type(self) -> Seq<char> {
        match self {
            ValueView::Integer(_) => INTEGER_TYPE@,
            ValueView::Double(_) => DOUBLE_TYPE@,
            ValueView::String(_) => STRING_TYPE@,
        }
    }

    /// Two values are of one kind when they are the same variant.
    pub open spec fn same_kind(self, other: ValueView) -> bool {
        match (self, other) {
            (ValueView::Integer(_), ValueView::Integer(_)) => true,
            (ValueView::Double(_), ValueView::Double(_)) => true,
            (ValueView::String(_), ValueView::String(_)) => true,
            _ => false,
        }
    }
}

impl View for Value {
    type V = ValueView;

    open spec fn view(&self) -> ValueView {
        match *self {
            Value::Integer(i) => ValueView::Integer(i),
            Value::Double(d) => ValueView::Double(d),
            Value::String(s) => ValueView::String(s@),
        }
    }
}

impl Value {
    /// The tag of the kind that the value belongs to.
    pub fn data_type(&self) -> (tag: &'static str)
        ensures
            tag@ == self@.data_type(),
    {
        match self {
            Value::Integer(_) => INTEGER_TYPE,
            Value::Double(_) => DOUBLE_TYPE,
            Value::String(_) => STRING_TYPE,
        }
    }
}

impl From<i64> for Value {
    fn from(other: i64) -> (v: Value) {
        Value::Integer(other)
    }
}

impl vstd::std_specs::convert::FromSpecImpl<i64> for Value {
    open spec fn obeys_from_spec() -> bool {
        true
    }

    open spec fn from_spec(other: i64) -> Value {
        Value::Integer(other)
    }
}

impl From<Double> for Value {
    fn from(other: Double) -> (v: Value) {
        Value::Double(other)
    }
}

impl vstd::std_specs::convert::FromSpecImpl<Double> for Value {
    open spec fn obeys_from_spec() -> bool {
        true
    }

    open spec fn from_spec(other: Double) -> Value {
        Value::Double(other)
    }
}

impl From<String> for Value {
    fn from(other: String) -> (v: Value) {
        Value::String(other)
    }
}

impl vstd::std_specs::convert::FromSpecImpl<String> for Value {
    open spec fn obeys_from_spec() -> bool {
        true
    }

    open spec fn from_spec(other: String) -> Value {
        Value::String(other)
    }
}

impl<'a> From<&'a str> for Value {
    fn from(other: &'a str) -> (v: Value)
        ensures
            v@ == ValueView::String(other@),
    {
        Value::String(String::from_str(other))
    }
}

impl<'a> vstd::std_specs::convert::FromSpecImpl<&'a str> for Value {
    /// The text is copied into a new `String`, which has no name in contracts: what
    /// `from` returns is stated on `from` itself, over the view.
    open spec fn obeys_from_spec() -> bool {
        false
    }

    open spec fn from_spec(other: &'a str) -> Value {
        arbitrary()
    }
}

impl Clone for Value {
    fn clone(&self) -> (v: Value)
        ensures
            v@ == self@,
    {
        match self {
            Value::Integer(i) => Value::Integer(*i),
            Value::Double(d) => Value::Double(*d),
            Value::String(s) => Value::String(s.clone()),
        }
    }
}

/// The three tags are pairwise different, so a tag tells the kind.
pub proof fn lemma_tags_differ()
    ensures
        INTEGER_TYPE@ != DOUBLE_TYPE@,
        INTEGER_TYPE@ != STRING_TYPE@,
        DOUBLE_TYPE@ != STRING_TYPE@,
{
    reveal_strlit("integer");
    reveal_strlit("double");
    reveal_strlit("string");
    assert(INTEGER_TYPE@.len() == 7);
    assert(DOUBLE_TYPE@.len() == 6);
    assert(STRING_TYPE@[0] == 's');
    assert(DOUBLE_TYPE@[0] == 'd');
}

/// Two values are of one kind exactly when their tags are the same text.
pub proof fn lemma_same_kind_same_tag(a: ValueView, b: ValueView)
    ensures
        a.same_kind(b) <==> a.data_type() == b.data_type(),
{
    lemma_tags_differ();
}

} // verus!
