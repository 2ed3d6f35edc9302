//! The text of a value: how a tree of values is written out and how a text
//! is read back into one.

pub mod grammar;
pub mod reader;
pub mod round_trip;
pub mod writer;
