//! The records of the two formats, as plain values.

use vstd::prelude::*;
use vstd::slice::slice_to_vec;

verus! {

/// What a [`FastaRecord`] holds, as mathematical values.
pub struct FastaRecordView {
    pub id: Seq<char>,
    pub desc: Option<Seq<char>>,
    pub seq: Seq<u8>,
}

/// What a [`FastqRecord`] holds, as mathematical values.
pub struct FastqRecordView {
    pub id: Seq<char>,
    pub desc: Option<Seq<char>>,
    pub seq: Seq<u8>,
    pub qual: Seq<u8>,
}

/// A record of the plain format: identifier, optional description, bases.
#[derive(Debug, PartialEq, Eq)]
pub struct FastaRecord {
    pub id: String,
    pub desc: Option<String>,
    pub seq: Vec<u8>,
}

/// A record of the quality-annotated format: identifier, optional
/// description, bases, and one encoded quality value per base.
#[derive(Debug, PartialEq, Eq)]
pub struct FastqRecord {
    pub id: String,
    pub desc: Option<String>,
    pub seq: Vec<u8>,
    pub qual: Vec<u8>,
}

/// The view of an optional string.
pub open spec fn opt_string_view(s: Option<String>) -> Option<Seq<char>> {
    match s {
        Some(t) => Some(t@),
        None => None,
    }
}

impl FastaRecordView {
    /// The record that stands in the place of one that could not be read.
    pub open spec fn placeholder() -> Self {
        FastaRecordView { id: Seq::empty(), desc: None, seq: Seq::empty() }
    }

    /// A plain record is valid exactly when it has an identifier and at
    /// least one base.
    pub open spec fn is_valid(self) -> bool {
        self.id.len() > 0 && self.seq.len() > 0
    }
}

impl FastqRecordView {
    /// The record that stands in the place of one that could not be read.
    pub open spec fn placeholder() -> Self {
        FastqRecordView { id: Seq::empty(), desc: None, seq: Seq::empty(), qual: Seq::empty() }
    }

    /// A quality-annotated record is valid exactly when it has an
    /// identifier, at least one base, and one quality value per base.
    pub open spec fn is_valid(self) -> bool {
        &&& self.id.len() > 0
        &&& self.seq.len() > 0
        &&& self.qual.len() > 0
        &&& self.seq.len() == self.qual.len()
    }
}

impl View for FastaRecord {
    type V = FastaRecordView;

    open spec fn view(&self) -> FastaRecordView {
        FastaRecordView { id: self.id@, desc: opt_string_view(self.desc), seq: self.seq@ }
    }
}

impl View for FastqRecord {
    type V = FastqRecordView;

    open spec fn view(&self) -> FastqRecordView {
        FastqRecordView {
            id: self.id@,
            desc: opt_string_view(self.desc),
            seq: self.seq@,
            qual: self.qual@,
        }
    }
}

impl FastaRecord {
    /// The empty record, which is not valid: it stands in the place of a
    /// record that could not be read.
    pub fn new() -> (r: Self)
        ensures
            r@ == FastaRecordView::placeholder(),
            !r@.is_valid(),
    {
        FastaRecord { id: String::new(), desc: None, seq: Vec::new() }
    }

    /// Whether the record is valid.
    pub fn check(&self) -> (ok: bool)
        ensures
            ok == self@.is_valid(),
    {
        !self.id.as_str().is_empty() && self.seq.len() > 0
    }
}

impl FastqRecord {
    /// The empty record, which is not valid: it stands in the place of a
    /// record that could not be read.
    pub fn new() -> (r: Self)
        ensures
            r@ == FastqRecordView::placeholder(),
            !r@.is_valid(),
    {
        FastqRecord { id: String::new(), desc: None, seq: Vec::new(), qual: Vec::new() }
    }

    /// Whether the record is valid.
    pub fn check(&self) -> (ok: bool)
        ensures
            ok == self@.is_valid(),
    {
        !self.id.as_str().is_empty() && self.seq.len() > 0 && self.qual.len() > 0
            && self.seq.len() == self.qual.len()
    }
}

fn clone_desc(desc: &Option<String>) -> (copy: Option<String>)
    ensures
        opt_string_view(copy) == opt_string_view(*desc),
{
    match desc {
        Some(d) => Some(d.clone()),
        None => None,
    }
}

impl Clone for FastaRecord {
    fn clone(&self) -> (copy: Self)
        ensures
            copy@ == self@,
    {
        FastaRecord {
            id: self.id.clone(),
            desc: clone_desc(&self.desc),
            seq: slice_to_vec(self.seq.as_slice()),
        }
    }
}

impl Clone for FastqRecord {
    fn clone(&self) -> (copy: Self)
        ensures
            copy@ == self@,
    {
        FastqRecord {
            id: self.id.clone(),
            desc: clone_desc(&self.desc),
            seq: slice_to_vec(self.seq.as_slice()),
            qual: slice_to_vec(self.qual.as_slice()),
        }
    }
}

/// The record that a parsed item stands for: the record itself, or the
/// placeholder where the item could not be read.
pub open spec fn fasta_record_or_placeholder(item: Option<FastaRecordView>) -> FastaRecordView {
    match item {
        Some(rec) => rec,
        None => FastaRecordView::placeholder(),
    }
}

/// The record that a parsed item stands for: the record itself, or the
/// placeholder where the item could not be read.
pub open spec fn fastq_record_or_placeholder(item: Option<FastqRecordView>) -> FastqRecordView {
    match item {
        Some(rec) => rec,
        None => FastqRecordView::placeholder(),
    }
}

/// The records that a list of parsed items stands for, in the same order.
pub open spec fn fasta_records_of(items: Seq<Option<FastaRecordView>>) -> Seq<FastaRecordView> {
    Seq::new(items.len(), |i: int| fasta_record_or_placeholder(items[i]))
}

/// The records that a list of parsed items stands for, in the same order.
pub open spec fn fastq_records_of(items: Seq<Option<FastqRecordView>>) -> Seq<FastqRecordView> {
    Seq::new(items.len(), |i: int| fastq_record_or_placeholder(items[i]))
}

/// The views of a list of plain records.
pub open spec fn fasta_records_view(records: Seq<FastaRecord>) -> Seq<FastaRecordView> {
    Seq::new(records.len(), |i: int| records[i]@)
}

/// The views of a list of quality-annotated records.
pub open spec fn fastq_records_view(records: Seq<FastqRecord>) -> Seq<FastqRecordView> {
    Seq::new(records.len(), |i: int| records[i]@)
}

/// The views of parsed items of the plain format.
pub open spec fn fasta_items_view(items: Seq<Option<FastaRecord>>) -> Seq<Option<FastaRecordView>> {
    Seq::new(
        items.len(),
        |i: int|
            match items[i] {
                Some(r) => Some(r@),
                None => None,
            },
    )
}

/// The views of parsed items of the quality-annotated format.
pub open spec fn fastq_items_view(items: Seq<Option<FastqRecord>>) -> Seq<Option<FastqRecordView>> {
    Seq::new(
        items.len(),
        |i: int|
            match items[i] {
                Some(r) => Some(r@),
                None => None,
            },
    )
}

/// Puts the placeholder in the place of every item that could not be read.
/// No item is dropped and none changes its place.
pub fn fasta_records_from_items(items: &Vec<Option<FastaRecord>>) -> (records: Vec<FastaRecord>)
    ensures
        records@.len() == items@.len(),
        fasta_records_view(records@) == fasta_records_of(fasta_items_view(items@)),
{
    let mut records: Vec<FastaRecord> = Vec::new();
    let mut i: usize = 0;
    while i < items.len()
        invariant
            i <= items@.len(),
            records@.len() == i,
            forall|j: int|
                0 <= j < i ==> (#[trigger] records@[j])@ == fasta_record_or_placeholder(
                    fasta_items_view(items@)[j],
                ),
        decreases items@.len() - i,
    {
        let record = match &items[i] {
            Some(rec) => rec.clone(),
            None => FastaRecord::new(),
        };
        records.push(record);
        i = i + 1;
    }
    proof {
        assert(fasta_records_view(records@) =~= fasta_records_of(fasta_items_view(items@)));
    }
    records
}

/// Puts the placeholder in the place of every item that could not be read.
/// No item is dropped and none changes its place.
pub fn fastq_records_from_items(items: &Vec<Option<FastqRecord>>) -> (records: Vec<FastqRecord>)
    ensures
        records@.len() == items@.len(),
        fastq_records_view(records@) == fastq_records_of(fastq_items_view(items@)),
{
    let mut records: Vec<FastqRecord> = Vec::new();
    let mut i: usize = 0;
    while i < items.len()
        invariant
            i <= items@.len(),
            records@.len() == i,
            forall|j: int|
                0 <= j < i ==> (#[trigger] records@[j])@ == fastq_record_or_placeholder(
                    fastq_items_view(items@)[j],
                ),
        decreases items@.len() - i,
    {
        let record = match &items[i] {
            Some(rec) => rec.clone(),
            None => FastqRecord::new(),
        };
        records.push(record);
        i = i + 1;
    }
    proof {
        assert(fastq_records_view(records@) =~= fastq_records_of(fastq_items_view(items@)));
    }
    records
}

/// A record without bases is not valid, whatever else it holds.
pub proof fn lemma_empty_sequence_is_invalid(fa: FastaRecordView, fq: FastqRecordView)
    ensures
        fa.seq.len() == 0 ==> !fa.is_valid(),
        fq.seq.len() == 0 ==> !fq.is_valid(),
{
}

/// A quality-annotated record without quality values, or with a number of
/// quality values other than the number of its bases, is not valid.
pub proof fn lemma_quality_mismatch_is_invalid(fq: FastqRecordView)
    ensures
        fq.qual.len() == 0 ==> !fq.is_valid(),
        fq.seq.len() != fq.qual.len() ==> !fq.is_valid(),
{
}

} // verus!
