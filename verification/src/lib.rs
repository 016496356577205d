//! Read and write the fields of nested records through a run-time path of string keys.
//!
//! A dotted key such as `inner.y` is split at its dots ([`path`]). Each record on the way
//! consumes one segment and hands the rest to the field that the segment names
//! ([`record`]); the leaf at the end converts between its own type and the dynamic
//! [`Value`] ([`accessor`]). What a read and a write yield is defined once, on a
//! mathematical model of nested records ([`model`]), and every implementation in this
//! crate is verified against it.

pub mod accessor;
pub mod double;
pub mod error;
pub mod model;
pub mod path;
pub mod record;
pub mod sample;
pub mod value;

pub use accessor::StringlyTyped;
pub use double::Double;
pub use error::UpdateError;
pub use value::{Value, DOUBLE_TYPE, INTEGER_TYPE, STRING_TYPE};
