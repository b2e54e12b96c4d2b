//! Listing formats: which variables a listing asks for, and how its rows are
//! framed and read.

pub mod catalog;
pub mod codec;
pub mod error;
pub mod plan;
