//! Portable filter expressions: building, validating, matching, and the
//! versioned wire form.

pub mod envelope;
pub mod error;
pub mod expression;
pub mod fields;
pub mod filterable;
pub mod grammar;
pub mod laws;
pub mod matching;
pub mod model;
pub mod outside;
pub mod private;
pub mod redacted;
pub mod round_trip;
pub mod schema;
pub mod wire;
pub mod wire_model;
