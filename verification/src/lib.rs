//! Per-record metrics for nucleotide sequence files.
//!
//! Two record formats are handled: the plain format, whose records carry an
//! identifier, an optional description and a sequence, and the
//! quality-annotated format, whose records also carry one encoded quality
//! value per base. For every record of a stream the library reports how many
//! of its bases are G or C, how many open reading frames it holds and, for the
//! quality-annotated format, its cumulative quality score. A malformed record
//! never aborts a stream: it is reported as an invalid result in its place.

pub mod analysis;
pub mod models;
pub mod outside;
pub mod records;
pub mod services;
