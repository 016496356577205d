//! The step that every record takes on a path.
//!
//! A record type implements [`crate::accessor::StringlyTyped`] by one call of
//! [`select_field`] with its name and the names of its fields, followed by a branch on the
//! index that comes back: the read or the write then goes on in that field, with the rest
//! of the path. [`crate::sample`] shows the pattern on two nested records.

use vstd::prelude::*;
use crate::error::UpdateError;
use crate::model::{lemma_position_found, lemma_position_sound, select};
use crate::path::str_eq;

verus! {

/// Consumes the first segment of `keys` on behalf of the record named `data_type`, whose
/// fields are named `fields` in declaration order.
///
/// Returns the index of the first field whose name is the segment, with the segments that
/// are left. An empty path gives `CantSerialize` with the record's name; a segment that
/// names no field gives `UnknownField` with all of `fields`.
pub fn select_field<'a, 'b>(
    data_type: &'static str,
    fields: &'static [&'static str],
    keys: &'a [&'b str],
) -> (r: Result<(usize, &'a [&'b str]), UpdateError>)
    ensures
        match select(data_type@, fields.deep_view(), keys.deep_view()) {
            Ok(i) => r matches Ok((index, rest)) && index == i && index < fields.len()
                && rest.deep_view() == keys.deep_view().drop_first(),
            Err(e) => r matches Err(x) && x@ == e,
        },
{
    if keys.len() == 0 {
        return Err(UpdateError::CantSerialize { data_type });
    }
    let key = keys[0];
    let rest = &keys[1..keys.len()];
    assert(rest.deep_view() =~= keys.deep_view().drop_first());
    let ghost names = fields.deep_view();
    let mut i: usize = 0;
    while i < fields.len()
        invariant
            i <= fields.len(),
            names == fields.deep_view(),
            keys.deep_view().len() > 0,
            key@ == keys.deep_view()[0],
            rest.deep_view() == keys.deep_view().drop_first(),
            forall|j: int| 0 <= j < i ==> names[j] != key@,
        decreases fields.len() - i,
    {
        if str_eq(fields[i], key) {
            proof {
                lemma_position_found(names, key@, i as int);
            }
            return Ok((i, rest));
        }
        i += 1;
    }
    proof {
        lemma_position_sound(names, key@);
    }
    Err(UpdateError::UnknownField { valid_fields: fields })
}

} // verus!
