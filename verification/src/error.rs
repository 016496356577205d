//! What can go wrong while a path is resolved.

use vstd::prelude::*;

verus! {

/// The reason a read or a write along a path was refused.
#[derive(Debug, Copy, Clone, PartialEq)]
pub enum UpdateError {
    /// A leaf was handed a value of another kind than its own.
    TypeError { found: &'static str, expected: &'static str },
    /// A leaf was reached while segments of the path were still left.
    TooManyKeys { elements_remaning: usize },
    /// A record has no field named by the next segment.
    UnknownField { valid_fields: &'static [&'static str] },
    /// The path ended at a record, which no scalar value can stand for.
    CantSerialize { data_type: &'static str },
}

/// The mathematical content of an [`UpdateError`].
pub enum ErrorView {
    TypeError { found: Seq<char>, expected: Seq<char> },
    TooManyKeys { elements_remaning: nat },
    UnknownField { valid_fields: Seq<Seq<char>> },
    CantSerialize { data_type: Seq<char> },
}

impl View for UpdateError {
    type V = ErrorView;

    open spec fn view(&self) -> ErrorView {
        match *self {
            UpdateError::TypeError { found, expected } => ErrorView::TypeError {
                found: found@,
                expected: expected@,
            },
            UpdateError::TooManyKeys { elements_remaning } => ErrorView::TooManyKeys {
                elements_remaning: elements_remaning as nat,
            },
            UpdateError::UnknownField { valid_fields } => ErrorView::UnknownField {
                valid_fields: valid_fields.deep_view(),
            },
            UpdateError::CantSerialize { data_type } => ErrorView::CantSerialize {
                data_type: data_type@,
            },
        }
    }
}

} // verus!
