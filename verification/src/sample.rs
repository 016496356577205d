//! Two nested records that implement the capability by hand: the pattern to follow for
//! any record type.

use vstd::prelude::*;
use crate::accessor::StringlyTyped;
use crate::double::Double;
use crate::error::{ErrorView, UpdateError};
use crate::model::{first_match, lemma_get_descends, lemma_set_descends, names_of, Field, Tree};
use crate::record::select_field;
use crate::value::{Value, ValueView};

verus! {

/// A record of two leaves.
#[derive(Debug, Clone, Copy, PartialEq)]
pub struct Inner {
    pub x: Double,
    pub y: i64,
}

/// A record that holds another record.
#[derive(Debug, Clone, Copy, PartialEq)]
pub struct Outer {
    pub inner: Inner,
}

impl Inner {
    /// The fields of an [`Inner`], as its model lists them.
    pub open spec fn fields(&self) -> Seq<Field> {
        seq![
            Field { name: "x"@, value: self.x.tree() },
            Field { name: "y"@, value: self.y.tree() },
        ]
    }
}

impl Outer {
    /// The fields of an [`Outer`], as its model lists them.
    pub open spec fn fields(&self) -> Seq<Field> {
        seq![Field { name: "inner"@, value: self.inner.tree() }]
    }
}

impl Default for Inner {
    fn default() -> (r: Inner)
        ensures
            r.x.bits == 0,
            r.y == 0,
    {
        Inner { x: Double { bits: 0 }, y: 0 }
    }
}

impl Default for Outer {
    fn default() -> (r: Outer)
        ensures
            r.inner.x.bits == 0,
            r.inner.y == 0,
    {
        Outer { inner: Inner { x: Double { bits: 0 }, y: 0 } }
    }
}

impl StringlyTyped for Inner {
    open spec fn type_tag() -> Seq<char> {
        "Inner"@
    }

    open spec fn tree(&self) -> Tree {
        Tree::Record { name: "Inner"@, fields: self.fields() }
    }

    fn set_value(&mut self, keys: &[&str], value: Value) -> (r: Result<(), UpdateError>) {
        let names: &'static [&'static str] = &["x", "y"];
        assert(names.deep_view() =~= names_of(self.fields()));
        match select_field("Inner", names, keys) {
            Err(e) => Err(e),
            Ok((index, rest)) => {
                let ghost before = self.fields();
                if index == 0 {
                    let r = self.x.set_value(rest, value);
                    assert(r is Ok ==> self.fields() =~= before.update(
                        0,
                        Field { name: before[0].name, value: self.x.tree() },
                    ));
                    r
                } else {
                    let r = self.y.set_value(rest, value);
                    assert(r is Ok ==> self.fields() =~= before.update(
                        1,
                        Field { name: before[1].name, value: self.y.tree() },
                    ));
                    r
                }
            },
        }
    }

    fn get_value(&self, keys: &[&str]) -> (r: Result<Value, UpdateError>) {
        let names: &'static [&'static str] = &["x", "y"];
        assert(names.deep_view() =~= names_of(self.fields()));
        match select_field("Inner", names, keys) {
            Err(e) => Err(e),
            Ok((index, rest)) => if index == 0 {
                self.x.get_value(rest)
            } else {
                self.y.get_value(rest)
            },
        }
    }

    fn data_type(&self) -> (tag: &'static str) {
        "Inner"
    }
}

impl StringlyTyped for Outer {
    open spec fn type_tag() -> Seq<char> {
        "Outer"@
    }

    open spec fn tree(&self) -> Tree {
        Tree::Record { name: "Outer"@, fields: self.fields() }
    }

    fn set_value(&mut self, keys: &[&str], value: Value) -> (r: Result<(), UpdateError>) {
        let names: &'static [&'static str] = &["inner"];
        assert(names.deep_view() =~= names_of(self.fields()));
        match select_field("Outer", names, keys) {
            Err(e) => Err(e),
            Ok((_, rest)) => {
                let ghost before = self.fields();
                let r = self.inner.set_value(rest, value);
                assert(r is Ok ==> self.fields() =~= before.update(
                    0,
                    Field { name: before[0].name, value: self.inner.tree() },
                ));
                r
            },
        }
    }

    fn get_value(&self, keys: &[&str]) -> (r: Result<Value, UpdateError>) {
        let names: &'static [&'static str] = &["inner"];
        assert(names.deep_view() =~= names_of(self.fields()));
        match select_field("Outer", names, keys) {
            Err(e) => Err(e),
            Ok((_, rest)) => self.inner.get_value(rest),
        }
    }

    fn data_type(&self) -> (tag: &'static str) {
        "Outer"
    }
}

/// An [`Outer`] answers a path that starts with `inner` exactly as its field `inner`
/// answers the rest of the path, for a read and for a write.
pub proof fn lemma_outer_delegates(outer: Outer, rest: Seq<Seq<char>>, value: ValueView)
    ensures
        outer.tree().get(seq!["inner"@] + rest) == outer.inner.tree().get(rest),
        outer.tree().set(seq!["inner"@] + rest, value) == (match outer.inner.tree().set(
            rest,
            value,
        ) {
            Ok(child) => Ok(
                Tree::Record { name: "Outer"@, fields: seq![Field { name: "inner"@, value: child }] },
            ),
            Err(e) => Err::<Tree, ErrorView>(e),
        }),
{
    let fields = outer.fields();
    assert(first_match(names_of(fields), fields[0].name, 0));
    lemma_get_descends("Outer"@, fields, 0, rest);
    lemma_set_descends("Outer"@, fields, 0, rest, value);
    if let Ok(child) = outer.inner.tree().set(rest, value) {
        assert(fields.update(0, Field { name: fields[0].name, value: child }) =~= seq![
            Field { name: "inner"@, value: child },
        ]);
    }
}

/// An [`Inner`] answers a path that starts with `x` or with `y` exactly as that leaf
/// answers the rest of the path.
pub proof fn lemma_inner_delegates(inner: Inner, rest: Seq<Seq<char>>)
    ensures
        inner.tree().get(seq!["x"@] + rest) == inner.x.tree().get(rest),
        inner.tree().get(seq!["y"@] + rest) == inner.y.tree().get(rest),
{
    let fields = inner.fields();
    reveal_strlit("x");
    reveal_strlit("y");
    assert("x"@[0] != "y"@[0]);
    assert(first_match(names_of(fields), fields[0].name, 0));
    assert(first_match(names_of(fields), fields[1].name, 1));
    lemma_get_descends("Inner"@, fields, 0, rest);
    lemma_get_descends("Inner"@, fields, 1, rest);
}

} // verus!
