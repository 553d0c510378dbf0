//! Counting lines, words, bytes and characters of a byte stream.

pub mod accumulate;
pub mod args;
pub mod counts;
pub mod error;
pub mod laws;
pub mod options;
pub mod scan;
pub mod text;
