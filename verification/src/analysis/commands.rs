//! The four entry points: each format, from text and from a file's
//! contents.

use crate::analysis::analysers::{
    analyse_fasta_records, analyse_fastq_records, fasta_results_of, fasta_results_view,
    fastq_results_of, fastq_results_view,
};
use crate::models::{FastaSeqResult, FastqSeqResult};
use crate::outside::{fasta_stream, fastq_stream};
use crate::records::{fasta_records_of, fastq_records_of};
use crate::services::io::{ingested, parse_fasta, parse_fastq, read_fasta, read_fastq, IngestError};
use vstd::prelude::*;
use vstd::string::StringSliceAdditionalSpecFns;

verus! {

/// Analyses a stream of the quality-annotated format given as text: one
/// result for each record of the stream, in the stream's order.
pub fn analyse_fastq_sequences(sequences: &str) -> (results: Vec<FastqSeqResult>)
    ensures
        results@.len() == fastq_stream(sequences.spec_bytes()).len(),
        fastq_results_view(results@) == fastq_results_of(
            fastq_records_of(fastq_stream(sequences.spec_bytes())),
        ),
{
    let records = parse_fastq(sequences.as_bytes());
    analyse_fastq_records(&records)
}

/// Analyses a stream of the plain format given as text: one result for each
/// record of the stream, in the stream's order.
pub fn analyse_fasta_sequences(sequences: &str) -> (results: Vec<FastaSeqResult>)
    ensures
        results@.len() == fasta_stream(sequences.spec_bytes()).len(),
        fasta_results_view(results@) == fasta_results_of(
            fasta_records_of(fasta_stream(sequences.spec_bytes())),
        ),
{
    let records = parse_fasta(sequences.as_bytes());
    analyse_fasta_records(&records)
}

/// Analyses the quality-annotated file at `path` with the given contents,
/// decompressed first where the path ends in `.gz`. Fails only where the
/// stream cannot be taken in.
pub fn analyse_fastq_file(path: &str, contents: &[u8]) -> (r: Result<
    Vec<FastqSeqResult>,
    IngestError,
>)
    ensures
        match r {
            Ok(results) => {
                &&& ingested(path.spec_bytes(), contents@) is Ok
                &&& results@.len() == fastq_stream(
                    ingested(path.spec_bytes(), contents@)->Ok_0,
                ).len()
                &&& fastq_results_view(results@) == fastq_results_of(
                    fastq_records_of(fastq_stream(ingested(path.spec_bytes(), contents@)->Ok_0)),
                )
            },
            Err(e) => ingested(path.spec_bytes(), contents@) == Err::<Seq<u8>, IngestError>(e),
        },
{
    match read_fastq(path, contents) {
        Ok(records) => Ok(analyse_fastq_records(&records)),
        Err(e) => Err(e),
    }
}

/// Analyses the plain-format file at `path` with the given contents,
/// decompressed first where the path ends in `.gz`. Fails only where the
/// stream cannot be taken in.
pub fn analyse_fasta_file(path: &str, contents: &[u8]) -> (r: Result<
    Vec<FastaSeqResult>,
    IngestError,
>)
    ensures
        match r {
            Ok(results) => {
                &&& ingested(path.spec_bytes(), contents@) is Ok
                &&& results@.len() == fasta_stream(
                    ingested(path.spec_bytes(), contents@)->Ok_0,
                ).len()
                &&& fasta_results_view(results@) == fasta_results_of(
                    fasta_records_of(fasta_stream(ingested(path.spec_bytes(), contents@)->Ok_0)),
                )
            },
            Err(e) => ingested(path.spec_bytes(), contents@) == Err::<Seq<u8>, IngestError>(e),
        },
{
    match read_fasta(path, contents) {
        Ok(records) => Ok(analyse_fasta_records(&records)),
        Err(e) => Err(e),
    }
}

} // verus!
