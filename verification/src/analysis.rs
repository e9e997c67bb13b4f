//! The analysis of parsed records, and the entry points that run it on a
//! whole stream.

pub mod analysers;
pub mod commands;
