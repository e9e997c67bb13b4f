//! Taking a stream in, and the rules of the result store.
//!
//! Reading and writing files is left to the caller: the functions here take
//! the path as text and the file's contents as bytes, and decide.

use crate::outside::{fasta_stream, fastq_stream, gunzip, gzip_decoded, text_from_utf8};
use crate::outside::{parse_fasta_stream, parse_fastq_stream};
use crate::records::{
    fasta_records_from_items, fasta_records_of, fasta_records_view, fastq_records_from_items,
    fastq_records_of, fastq_records_view, FastaRecord, FastqRecord,
};
use vstd::prelude::*;
use vstd::slice::slice_to_vec;
use vstd::string::{StringExecFns, StringSliceAdditionalSpecFns};
use vstd::utf8::{encode_utf8, valid_utf8};

verus! {

/// Why a stream could not be taken in. Either aborts the whole request: no
/// record has been read yet.
#[derive(Debug, Clone, Copy, PartialEq, Eq, Structural)]
pub enum IngestError {
    /// The input could not be read, or the decompression stream failed.
    Io,
    /// The decompressed payload is not text.
    Decode,
}

/// Why the result store refused a request.
#[derive(Debug, Clone, Copy, PartialEq, Eq, Structural)]
pub enum StoreError {
    /// The source does not exist.
    NotFound,
    /// The source is a directory.
    InvalidInput,
    /// The destination could not be written, or the results not be encoded.
    Io,
}

/// The suffix by which a compressed file is known: `.gz`.
pub open spec fn gzip_suffix() -> Seq<u8> {
    seq![0x2eu8, 0x67u8, 0x7au8]
}

/// Whether a path, as bytes, ends in the compression suffix.
pub open spec fn has_gzip_suffix(path: Seq<u8>) -> bool {
    path.len() >= 3 && path.subrange(path.len() - 3, path.len() as int) == gzip_suffix()
}

/// The text that compressed `data` holds: the decompressed bytes where the
/// stream decodes and they are valid UTF-8.
pub open spec fn decoded_text(decoded: Option<Seq<u8>>) -> Result<Seq<u8>, IngestError> {
    match decoded {
        None => Err(IngestError::Io),
        Some(bytes) => if valid_utf8(bytes) {
            Ok(bytes)
        } else {
            Err(IngestError::Decode)
        },
    }
}

/// The record stream of a file: its contents, decompressed first where the
/// path ends in the compression suffix.
pub open spec fn ingested(path: Seq<u8>, contents: Seq<u8>) -> Result<Seq<u8>, IngestError> {
    if has_gzip_suffix(path) {
        decoded_text(gzip_decoded(contents))
    } else {
        Ok(contents)
    }
}

/// What loading results from a source answers before it reads anything.
pub open spec fn source_status(exists: bool, is_dir: bool) -> Result<(), StoreError> {
    if !exists {
        Err(StoreError::NotFound)
    } else if is_dir {
        Err(StoreError::InvalidInput)
    } else {
        Ok(())
    }
}

/// Whether a file is taken as compressed: by its name alone, where the path
/// ends in `.gz`.
pub fn is_gzip_path(path: &str) -> (compressed: bool)
    ensures
        compressed == has_gzip_suffix(path.spec_bytes()),
{
    let bytes = path.as_bytes();
    let n = bytes.len();
    if n < 3 {
        return false;
    }
    let found = bytes[n - 3] == 0x2e && bytes[n - 2] == 0x67 && bytes[n - 1] == 0x7a;
    proof {
        let tail = bytes@.subrange(n - 3, n as int);
        if found {
            assert(tail =~= gzip_suffix());
        } else {
            assert(tail[0] == bytes@[n - 3] && tail[1] == bytes@[n - 2] && tail[2] == bytes@[n - 1]);
            assert(gzip_suffix()[0] == 0x2e && gzip_suffix()[1] == 0x67 && gzip_suffix()[2]
                == 0x7a);
        }
    }
    found
}

/// Turns what the decompressor gave into text: a failed stream is an
/// `Io` error, bytes that are not valid UTF-8 a `Decode` error.
pub fn text_of_decoded(decoded: Option<Vec<u8>>) -> (r: Result<String, IngestError>)
    ensures
        match r {
            Ok(text) => decoded is Some && decoded_text(Some(decoded->0@)) == Ok::<
                Seq<u8>,
                IngestError,
            >(encode_utf8(text@)),
            Err(e) => match decoded {
                Some(bytes) => decoded_text(Some(bytes@)) == Err::<Seq<u8>, IngestError>(e),
                None => e == IngestError::Io,
            },
        },
{
    match decoded {
        None => Err(IngestError::Io),
        Some(bytes) => match text_from_utf8(bytes) {
            Some(text) => Ok(text),
            None => Err(IngestError::Decode),
        },
    }
}

/// Decompresses gzip `data` fully into text.
pub fn extract_gzip(data: &[u8]) -> (r: Result<String, IngestError>)
    ensures
        match r {
            Ok(text) => decoded_text(gzip_decoded(data@)) == Ok::<Seq<u8>, IngestError>(
                encode_utf8(text@),
            ),
            Err(e) => decoded_text(gzip_decoded(data@)) == Err::<Seq<u8>, IngestError>(e),
        },
{
    text_of_decoded(gunzip(data))
}

/// The record stream of the file at `path` with the given contents:
/// decompressed where the path ends in `.gz`, as it is otherwise.
pub fn ingest(path: &str, contents: &[u8]) -> (r: Result<Vec<u8>, IngestError>)
    ensures
        match r {
            Ok(stream) => ingested(path.spec_bytes(), contents@) == Ok::<Seq<u8>, IngestError>(
                stream@,
            ),
            Err(e) => ingested(path.spec_bytes(), contents@) == Err::<Seq<u8>, IngestError>(e),
        },
{
    if is_gzip_path(path) {
        match extract_gzip(contents) {
            Ok(text) => Ok(slice_to_vec(text.as_str().as_bytes())),
            Err(e) => Err(e),
        }
    } else {
        Ok(slice_to_vec(contents))
    }
}

/// The records of a stream of the plain format, in the stream's order, the
/// placeholder in the place of each record that could not be read.
pub fn parse_fasta(stream: &[u8]) -> (records: Vec<FastaRecord>)
    ensures
        records@.len() == fasta_stream(stream@).len(),
        fasta_records_view(records@) == fasta_records_of(fasta_stream(stream@)),
{
    let items = parse_fasta_stream(stream);
    fasta_records_from_items(&items)
}

/// The records of a stream of the quality-annotated format, in the stream's
/// order, the placeholder in the place of each record that could not be
/// read.
pub fn parse_fastq(stream: &[u8]) -> (records: Vec<FastqRecord>)
    ensures
        records@.len() == fastq_stream(stream@).len(),
        fastq_records_view(records@) == fastq_records_of(fastq_stream(stream@)),
{
    let items = parse_fastq_stream(stream);
    fastq_records_from_items(&items)
}

/// The records of the plain-format file at `path` with the given contents.
/// Fails only where the stream cannot be taken in; a malformed record is a
/// placeholder among the records.
pub fn read_fasta(path: &str, contents: &[u8]) -> (r: Result<Vec<FastaRecord>, IngestError>)
    ensures
        match r {
            Ok(records) => {
                &&& ingested(path.spec_bytes(), contents@) is Ok
                &&& fasta_records_view(records@) == fasta_records_of(
                    fasta_stream(ingested(path.spec_bytes(), contents@)->Ok_0),
                )
            },
            Err(e) => ingested(path.spec_bytes(), contents@) == Err::<Seq<u8>, IngestError>(e),
        },
{
    match ingest(path, contents) {
        Ok(stream) => Ok(parse_fasta(stream.as_slice())),
        Err(e) => Err(e),
    }
}

/// The records of the quality-annotated file at `path` with the given
/// contents. Fails only where the stream cannot be taken in; a malformed
/// record is a placeholder among the records.
pub fn read_fastq(path: &str, contents: &[u8]) -> (r: Result<Vec<FastqRecord>, IngestError>)
    ensures
        match r {
            Ok(records) => {
                &&& ingested(path.spec_bytes(), contents@) is Ok
                &&& fastq_records_view(records@) == fastq_records_of(
                    fastq_stream(ingested(path.spec_bytes(), contents@)->Ok_0),
                )
            },
            Err(e) => ingested(path.spec_bytes(), contents@) == Err::<Seq<u8>, IngestError>(e),
        },
{
    match ingest(path, contents) {
        Ok(stream) => Ok(parse_fastq(stream.as_slice())),
        Err(e) => Err(e),
    }
}

/// Decides whether results can be loaded from a source, from what the file
/// system says of it: a source that does not exist is `NotFound`, one that
/// is a directory is `InvalidInput`, any other may be read.
pub fn check_results_source(exists: bool, is_dir: bool) -> (r: Result<(), StoreError>)
    ensures
        r == source_status(exists, is_dir),
        !exists ==> r == Err::<(), StoreError>(StoreError::NotFound),
        exists && is_dir ==> r == Err::<(), StoreError>(StoreError::InvalidInput),
        exists && !is_dir ==> r is Ok,
{
    if !exists {
        Err(StoreError::NotFound)
    } else if is_dir {
        Err(StoreError::InvalidInput)
    } else {
        Ok(())
    }
}

impl StoreError {
    /// The text of the error, for the source or destination it is about.
    pub open spec fn message_of(self, path: Seq<char>) -> Seq<char> {
        match self {
            StoreError::NotFound => path + " does not exist."@,
            StoreError::InvalidInput => path + " is a directory."@,
            StoreError::Io => "Could not save results."@,
        }
    }

    /// The text of the error, for the source or destination it is about.
    pub fn message(&self, path: &str) -> (text: String)
        ensures
            text@ == self.message_of(path@),
    {
        match self {
            StoreError::NotFound => path.to_owned().concat(" does not exist."),
            StoreError::InvalidInput => path.to_owned().concat(" is a directory."),
            StoreError::Io => "Could not save results.".to_owned(),
        }
    }
}

} // verus!
