//! The results that the analysis hands out, one per input record.

use vstd::prelude::*;

verus! {

/// What a [`FastqSeqResult`] holds, as mathematical values.
pub struct FastqSeqResultView {
    pub id: Seq<char>,
    pub desc: Seq<char>,
    pub gc_count: nat,
    pub n_orfs: nat,
    pub is_valid: bool,
    pub phred_score: nat,
    pub seq_len: nat,
    pub result_type: Seq<char>,
}

/// What a [`FastaSeqResult`] holds, as mathematical values.
pub struct FastaSeqResultView {
    pub id: Seq<char>,
    pub desc: Seq<char>,
    pub gc_count: nat,
    pub n_orfs: nat,
    pub is_valid: bool,
    pub seq_len: nat,
    pub result_type: Seq<char>,
}

/// The metrics of one quality-annotated record.
///
/// The GC content of the record is the fraction `gc_count / seq_len`, taken
/// as zero where `seq_len` is zero.
#[derive(Debug, PartialEq, Eq)]
pub struct FastqSeqResult {
    pub id: String,
    pub desc: String,
    pub gc_count: usize,
    pub n_orfs: usize,
    pub is_valid: bool,
    pub phred_score: u32,
    pub seq_len: usize,
    pub result_type: String,
}

/// The metrics of one plain record.
///
/// The GC content of the record is the fraction `gc_count / seq_len`, taken
/// as zero where `seq_len` is zero.
#[derive(Debug, PartialEq, Eq)]
pub struct FastaSeqResult {
    pub id: String,
    pub desc: String,
    pub gc_count: usize,
    pub n_orfs: usize,
    pub is_valid: bool,
    pub seq_len: usize,
    pub result_type: String,
}

impl FastqSeqResultView {
    /// The result that stands for nothing yet: every number zero, not valid.
    pub open spec fn blank() -> Self {
        FastqSeqResultView {
            id: "id"@,
            desc: "..."@,
            gc_count: 0,
            n_orfs: 0,
            is_valid: false,
            phred_score: 0,
            seq_len: 0,
            result_type: "fastq"@,
        }
    }

    /// The result reported in place of a record that was rejected.
    pub open spec fn invalid() -> Self {
        FastqSeqResultView { id: "Invalid Record"@, ..Self::blank() }
    }

    /// The GC bases are among the bases counted, and a result that is not
    /// valid carries zeros only.
    pub open spec fn well_formed(self) -> bool {
        &&& self.gc_count <= self.seq_len
        &&& self.result_type == "fastq"@
        &&& !self.is_valid ==> self.gc_count == 0 && self.n_orfs == 0 && self.phred_score == 0
            && self.seq_len == 0
    }
}

impl FastaSeqResultView {
    /// The result that stands for nothing yet: every number zero, not valid.
    pub open spec fn blank() -> Self {
        FastaSeqResultView {
            id: "id"@,
            desc: "..."@,
            gc_count: 0,
            n_orfs: 0,
            is_valid: false,
            seq_len: 0,
            result_type: "fasta"@,
        }
    }

    /// The result reported in place of a record that was rejected.
    pub open spec fn invalid() -> Self {
        FastaSeqResultView { id: "Invalid Record"@, ..Self::blank() }
    }

    /// The GC bases are among the bases counted, and a result that is not
    /// valid carries zeros only.
    pub open spec fn well_formed(self) -> bool {
        &&& self.gc_count <= self.seq_len
        &&& self.result_type == "fasta"@
        &&& !self.is_valid ==> self.gc_count == 0 && self.n_orfs == 0 && self.seq_len == 0
    }
}

impl View for FastqSeqResult {
    type V = FastqSeqResultView;

    open spec fn view(&self) -> FastqSeqResultView {
        FastqSeqResultView {
            id: self.id@,
            desc: self.desc@,
            gc_count: self.gc_count as nat,
            n_orfs: self.n_orfs as nat,
            is_valid: self.is_valid,
            phred_score: self.phred_score as nat,
            seq_len: self.seq_len as nat,
            result_type: self.result_type@,
        }
    }
}

impl View for FastaSeqResult {
    type V = FastaSeqResultView;

    open spec fn view(&self) -> FastaSeqResultView {
        FastaSeqResultView {
            id: self.id@,
            desc: self.desc@,
            gc_count: self.gc_count as nat,
            n_orfs: self.n_orfs as nat,
            is_valid: self.is_valid,
            seq_len: self.seq_len as nat,
            result_type: self.result_type@,
        }
    }
}

impl Default for FastqSeqResult {
    fn default() -> (r: Self)
        ensures
            r@ == FastqSeqResultView::blank(),
            r@.well_formed(),
    {
        FastqSeqResult {
            id: "id".to_owned(),
            desc: "...".to_owned(),
            gc_count: 0,
            n_orfs: 0,
            is_valid: false,
            phred_score: 0,
            seq_len: 0,
            result_type: "fastq".to_owned(),
        }
    }
}

impl Default for FastaSeqResult {
    fn default() -> (r: Self)
        ensures
            r@ == FastaSeqResultView::blank(),
            r@.well_formed(),
    {
        FastaSeqResult {
            id: "id".to_owned(),
            desc: "...".to_owned(),
            gc_count: 0,
            n_orfs: 0,
            is_valid: false,
            seq_len: 0,
            result_type: "fasta".to_owned(),
        }
    }
}

impl Clone for FastqSeqResult {
    fn clone(&self) -> (copy: Self)
        ensures
            copy@ == self@,
    {
        FastqSeqResult {
            id: self.id.clone(),
            desc: self.desc.clone(),
            gc_count: self.gc_count,
            n_orfs: self.n_orfs,
            is_valid: self.is_valid,
            phred_score: self.phred_score,
            seq_len: self.seq_len,
            result_type: self.result_type.clone(),
        }
    }
}

impl Clone for FastaSeqResult {
    fn clone(&self) -> (copy: Self)
        ensures
            copy@ == self@,
    {
        FastaSeqResult {
            id: self.id.clone(),
            desc: self.desc.clone(),
            gc_count: self.gc_count,
            n_orfs: self.n_orfs,
            is_valid: self.is_valid,
            seq_len: self.seq_len,
            result_type: self.result_type.clone(),
        }
    }
}

impl FastqSeqResult {
    /// The result reported in place of a record that was rejected: the fixed
    /// identifier `Invalid Record` and zeros.
    pub fn invalid() -> (r: Self)
        ensures
            r@ == FastqSeqResultView::invalid(),
            r@.well_formed(),
    {
        let blank = FastqSeqResult::default();
        FastqSeqResult { id: "Invalid Record".to_owned(), ..blank }
    }
}

impl FastaSeqResult {
    /// The result reported in place of a record that was rejected: the fixed
    /// identifier `Invalid Record` and zeros.
    pub fn invalid() -> (r: Self)
        ensures
            r@ == FastaSeqResultView::invalid(),
            r@.well_formed(),
    {
        let blank = FastaSeqResult::default();
        FastaSeqResult { id: "Invalid Record".to_owned(), ..blank }
    }
}

} // verus!
