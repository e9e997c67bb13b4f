//! What surrounds the analysis: taking a stream in, and the rules of the
//! result store.

pub mod io;
