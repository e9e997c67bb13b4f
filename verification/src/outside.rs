//! The calls that leave this crate. Nothing here is proved: each contract
//! states what the called function is relied on to do.

use crate::records::{
    fasta_items_view, fastq_items_view, FastaRecord, FastaRecordView, FastqRecord, FastqRecordView,
};
use std::io::Read;
use vstd::prelude::*;
use vstd::utf8::{encode_utf8, valid_utf8};

verus! {

/// The views of the codons in a list, in order.
pub open spec fn codon_views(codons: Seq<[u8; 3]>) -> Seq<Seq<u8>> {
    Seq::new(codons.len(), |i: int| codons[i]@)
}

/// Whether `codon` stands in `seq` at position `at`.
pub open spec fn codon_at(seq: Seq<u8>, codon: Seq<u8>, at: int) -> bool {
    0 <= at && at + codon.len() <= seq.len() && seq.subrange(at, at + codon.len()) == codon
}

/// Whether any codon of `codons` stands anywhere in `seq`.
pub open spec fn has_codon(seq: Seq<u8>, codons: Seq<Seq<u8>>) -> bool {
    exists|k: int, at: int| 0 <= k < codons.len() && #[trigger] codon_at(seq, codons[k], at)
}

/// The number of open reading frames that `bio`'s finder, made with the
/// given start codons, stop codons and minimum length, reports in `seq`.
pub uninterp spec fn orf_matches(
    starts: Seq<Seq<u8>>,
    stops: Seq<Seq<u8>>,
    min_len: nat,
    seq: Seq<u8>,
) -> nat;

/// The items that `bio`'s reader of the plain format yields on `data`, in
/// order: a record, or `None` where the reader reported an error.
pub uninterp spec fn fasta_stream(data: Seq<u8>) -> Seq<Option<FastaRecordView>>;

/// The items that `bio`'s reader of the quality-annotated format yields on
/// `data`, in order: a record, or `None` where the reader reported an error.
pub uninterp spec fn fastq_stream(data: Seq<u8>) -> Seq<Option<FastqRecordView>>;

/// What `flate2`'s gzip decoder reads from `data` up to the end of the
/// stream, or `None` where it reports an error.
pub uninterp spec fn gzip_decoded(data: Seq<u8>) -> Option<Seq<u8>>;

/// Calls `bio::seq_analysis::orf::Finder::new` and counts what its
/// `find_all` yields on `seq`.
///
/// The count is a function of the four arguments. The finder reports a
/// frame only from a start codon that it has met, and only where the frame,
/// stop codon included, has at least `min_len` bases: so it reports nothing
/// in a sequence shorter than `min_len`, and nothing where no start codon
/// occurs.
#[verifier::external_body]
pub(crate) fn count_orfs(
    starts: &Vec<[u8; 3]>,
    stops: &Vec<[u8; 3]>,
    min_len: usize,
    seq: &[u8],
) -> (n: usize)
    ensures
        n as nat == orf_matches(codon_views(starts@), codon_views(stops@), min_len as nat, seq@),
        seq@.len() < min_len ==> n == 0,
        !has_codon(seq@, codon_views(starts@)) ==> n == 0,
{
    let finder = bio::seq_analysis::orf::Finder::new(
        starts.iter().collect(),
        stops.iter().collect(),
        min_len,
    );
    finder.find_all(seq).count()
}

/// Runs `bio::io::fasta::Reader` over `data` and collects what its
/// `records` iterator yields, each record copied field by field and each
/// error turned into `None`. What the reader yields is a function of the
/// bytes alone.
#[verifier::external_body]
pub(crate) fn parse_fasta_stream(data: &[u8]) -> (items: Vec<Option<FastaRecord>>)
    ensures
        fasta_items_view(items@) == fasta_stream(data@),
{
    bio::io::fasta::Reader::new(data)
        .records()
        .map(|item| match item {
            Ok(rec) => Some(FastaRecord {
                id: rec.id().to_owned(),
                desc: rec.desc().map(|d| d.to_owned()),
                seq: rec.seq().to_vec(),
            }),
            Err(_) => None,
        })
        .collect()
}

/// Runs `bio::io::fastq::Reader` over `data` and collects what its
/// `records` iterator yields, each record copied field by field and each
/// error turned into `None`. What the reader yields is a function of the
/// bytes alone.
#[verifier::external_body]
pub(crate) fn parse_fastq_stream(data: &[u8]) -> (items: Vec<Option<FastqRecord>>)
    ensures
        fastq_items_view(items@) == fastq_stream(data@),
{
    bio::io::fastq::Reader::new(data)
        .records()
        .map(|item| match item {
            Ok(rec) => Some(FastqRecord {
                id: rec.id().to_owned(),
                desc: rec.desc().map(|d| d.to_owned()),
                seq: rec.seq().to_vec(),
                qual: rec.qual().to_vec(),
            }),
            Err(_) => None,
        })
        .collect()
}

/// Reads `flate2::read::GzDecoder` over `data` to its end. The bytes that
/// come out, or the fact that the decoder failed, are a function of `data`
/// alone.
#[verifier::external_body]
pub(crate) fn gunzip(data: &[u8]) -> (out: Option<Vec<u8>>)
    ensures
        out is Some == gzip_decoded(data@) is Some,
        out is Some ==> out->0@ == gzip_decoded(data@)->0,
{
    let mut buf = Vec::new();
    match flate2::read::GzDecoder::new(data).read_to_end(&mut buf) {
        Ok(_) => Some(buf),
        Err(_) => None,
    }
}

/// Calls `String::from_utf8`, which succeeds exactly on valid UTF-8 and
/// then returns the string that these bytes encode.
#[verifier::external_body]
pub(crate) fn text_from_utf8(bytes: Vec<u8>) -> (out: Option<String>)
    ensures
        out is Some == valid_utf8(bytes@),
        out is Some ==> encode_utf8(out->0@) == bytes@,
{
    match String::from_utf8(bytes) {
        Ok(text) => Some(text),
        Err(_) => None,
    }
}

} // verus!
