//! The metrics of one record, and the analysis of a list of records.

use crate::models::{FastaSeqResult, FastaSeqResultView, FastqSeqResult, FastqSeqResultView};
use crate::outside::{codon_views, count_orfs, has_codon, orf_matches};
use crate::records::{
    fasta_records_view, fastq_records_view, FastaRecord, FastaRecordView, FastqRecord,
    FastqRecordView,
};
use vstd::prelude::*;

verus! {

/// The offset of the quality encoding: a quality value `q` is written as the
/// byte `q + 33`.
pub const PHRED_OFFSET: u8 = 33;

/// The least number of bases, stop codon included, of an open reading frame
/// that is counted.
pub const MIN_ORF_LEN: usize = 50;

/// Whether a base is G or C, in either case.
pub open spec fn is_gc(base: u8) -> bool {
    base == 0x47 || base == 0x43 || base == 0x67 || base == 0x63
}

/// The number of bases of `seq` that are G or C.
pub open spec fn gc_count_of(seq: Seq<u8>) -> nat
    decreases seq.len(),
{
    if seq.len() == 0 {
        0
    } else {
        gc_count_of(seq.drop_last()) + if is_gc(seq.last()) {
            1nat
        } else {
            0nat
        }
    }
}

/// The sum of the quality values that `qual` encodes.
pub open spec fn phred_sum(qual: Seq<u8>) -> int
    decreases qual.len(),
{
    if qual.len() == 0 {
        0
    } else {
        phred_sum(qual.drop_last()) + (qual.last() - PHRED_OFFSET)
    }
}

/// Whether every byte of `qual` encodes a quality value, that is, none lies
/// below the offset.
pub open spec fn phred_encoded(qual: Seq<u8>) -> bool {
    forall|i: int| 0 <= i < qual.len() ==> qual[i] >= PHRED_OFFSET
}

/// Whether `qual` has a quality score: every byte encodes a quality value,
/// and their sum fits the score's type.
pub open spec fn phred_defined(qual: Seq<u8>) -> bool {
    phred_encoded(qual) && phred_sum(qual) <= u32::MAX
}

/// The start codon: ATG.
pub open spec fn start_codons() -> Seq<Seq<u8>> {
    seq![seq![0x41u8, 0x54u8, 0x47u8]]
}

/// The stop codons: TGA, TAG and TAA.
pub open spec fn stop_codons() -> Seq<Seq<u8>> {
    seq![
        seq![0x54u8, 0x47u8, 0x41u8],
        seq![0x54u8, 0x41u8, 0x47u8],
        seq![0x54u8, 0x41u8, 0x41u8],
    ]
}

/// The number of open reading frames of `seq`: those that the finder reports
/// for the start codon ATG, the stop codons TGA, TAG and TAA, and the
/// minimum length.
pub open spec fn orf_count_of(seq: Seq<u8>) -> nat {
    orf_matches(start_codons(), stop_codons(), MIN_ORF_LEN as nat, seq)
}

/// Over a prefix the sum only grows when every byte encodes a quality value.
pub proof fn lemma_phred_sum_prefix(qual: Seq<u8>, k: int)
    requires
        phred_encoded(qual),
        0 <= k <= qual.len(),
    ensures
        0 <= phred_sum(qual.take(k)) <= phred_sum(qual),
    decreases qual.len() - k,
{
    if k == qual.len() {
        assert(qual.take(k) =~= qual);
        lemma_phred_sum_nonnegative(qual);
    } else {
        lemma_phred_sum_prefix(qual, k + 1);
        assert(qual.take(k + 1).drop_last() =~= qual.take(k));
        lemma_phred_sum_nonnegative(qual.take(k));
    }
}

/// The sum is not negative when every byte encodes a quality value.
pub proof fn lemma_phred_sum_nonnegative(qual: Seq<u8>)
    requires
        phred_encoded(qual),
    ensures
        phred_sum(qual) >= 0,
    decreases qual.len(),
{
    if qual.len() > 0 {
        lemma_phred_sum_nonnegative(qual.drop_last());
    }
}

/// The quality score of a track whose bytes all equal `c` is its length
/// times the quality value that `c` encodes: zero for a track of `!`, twice
/// the length for a track of `#`.
pub proof fn lemma_phred_sum_constant(qual: Seq<u8>, c: u8)
    requires
        forall|i: int| 0 <= i < qual.len() ==> qual[i] == c,
    ensures
        phred_sum(qual) == qual.len() * (c - PHRED_OFFSET),
        c == 33 ==> phred_sum(qual) == 0,
        c == 35 ==> phred_sum(qual) == 2 * qual.len(),
    decreases qual.len(),
{
    if qual.len() > 0 {
        lemma_phred_sum_constant(qual.drop_last(), c);
        assert(qual.len() * (c - PHRED_OFFSET) == (qual.len() - 1) * (c - PHRED_OFFSET) + (c
            - PHRED_OFFSET)) by (nonlinear_arith);
    }
}

/// The GC bases of a sequence are among its bases, so that the GC content
/// lies between zero and one.
pub proof fn lemma_gc_count_bounded(seq: Seq<u8>)
    ensures
        gc_count_of(seq) <= seq.len(),
    decreases seq.len(),
{
    if seq.len() > 0 {
        lemma_gc_count_bounded(seq.drop_last());
    }
}

/// A sequence of G and C only has GC content one: every base is counted.
pub proof fn lemma_gc_count_all(seq: Seq<u8>)
    requires
        forall|i: int| 0 <= i < seq.len() ==> is_gc(seq[i]),
    ensures
        gc_count_of(seq) == seq.len(),
    decreases seq.len(),
{
    if seq.len() > 0 {
        lemma_gc_count_all(seq.drop_last());
    }
}

/// A sequence without G and C, such as one of A and T only, has GC content
/// zero: no base is counted.
pub proof fn lemma_gc_count_none(seq: Seq<u8>)
    requires
        forall|i: int| 0 <= i < seq.len() ==> !is_gc(seq[i]),
    ensures
        gc_count_of(seq) == 0,
    decreases seq.len(),
{
    if seq.len() > 0 {
        lemma_gc_count_none(seq.drop_last());
    }
}

/// Counts the bases of `seq` that are G or C, in either case.
pub fn gc_count(seq: &[u8]) -> (n: usize)
    ensures
        n == gc_count_of(seq@),
        n <= seq@.len(),
{
    let mut n: usize = 0;
    let mut i: usize = 0;
    while i < seq.len()
        invariant
            i <= seq@.len(),
            n == gc_count_of(seq@.take(i as int)),
            n <= i,
        decreases seq@.len() - i,
    {
        let base: u8 = seq[i];
        proof {
            assert(seq@.take(i + 1).drop_last() =~= seq@.take(i as int));
        }
        if base == 0x47 || base == 0x43 || base == 0x67 || base == 0x63 {
            n = n + 1;
        }
        i = i + 1;
    }
    proof {
        assert(seq@.take(i as int) =~= seq@);
    }
    n
}

/// The quality score of `qual`, where it has one: `None` where a byte lies
/// below the offset, or where the sum does not fit.
pub fn checked_phred_score(qual: &[u8]) -> (score: Option<u32>)
    ensures
        score is Some == phred_defined(qual@),
        score is Some ==> score->0 == phred_sum(qual@),
{
    let mut score: u32 = 0;
    let mut i: usize = 0;
    while i < qual.len()
        invariant
            i <= qual@.len(),
            phred_encoded(qual@.take(i as int)),
            score == phred_sum(qual@.take(i as int)),
        decreases qual@.len() - i,
    {
        let q: u8 = qual[i];
        proof {
            assert(qual@.take(i + 1).drop_last() =~= qual@.take(i as int));
        }
        if q < PHRED_OFFSET {
            return None;
        }
        let value: u32 = (q - PHRED_OFFSET) as u32;
        if value > u32::MAX - score {
            proof {
                assert(phred_sum(qual@.take(i + 1)) > u32::MAX);
                if phred_encoded(qual@) {
                    lemma_phred_sum_prefix(qual@, i + 1);
                }
            }
            return None;
        }
        score = score + value;
        proof {
            let next = qual@.take(i + 1);
            assert forall|j: int| 0 <= j < next.len() implies #[trigger] next[j]
                >= PHRED_OFFSET by {
                if j < i {
                    assert(qual@.take(i as int)[j] == qual@[j]);
                }
            }
        }
        i = i + 1;
    }
    proof {
        assert(qual@.take(i as int) =~= qual@);
    }
    Some(score)
}

/// The quality score of `qual`: the sum, over its bytes, of the byte less
/// the offset 33.
pub fn calc_phred_score(qual: &[u8]) -> (score: u32)
    requires
        phred_defined(qual@),
    ensures
        score == phred_sum(qual@),
{
    let mut score: u32 = 0;
    let mut i: usize = 0;
    while i < qual.len()
        invariant
            i <= qual@.len(),
            phred_defined(qual@),
            score == phred_sum(qual@.take(i as int)),
        decreases qual@.len() - i,
    {
        proof {
            assert(qual@.take(i + 1).drop_last() =~= qual@.take(i as int));
            lemma_phred_sum_prefix(qual@, i + 1);
        }
        score = score + (qual[i] - PHRED_OFFSET) as u32;
        i = i + 1;
    }
    proof {
        assert(qual@.take(i as int) =~= qual@);
    }
    score
}

/// Counts the open reading frames of `seq` on the strand as given: from a
/// start codon ATG to the first stop codon TGA, TAG or TAA in its frame,
/// where that span has at least 50 bases.
pub fn find_orfs(seq: &[u8]) -> (n: usize)
    ensures
        n == orf_count_of(seq@),
        seq@.len() < MIN_ORF_LEN ==> n == 0,
        !has_codon(seq@, start_codons()) ==> n == 0,
{
    let starts: Vec<[u8; 3]> = vec![[0x41u8, 0x54u8, 0x47u8]];
    let stops: Vec<[u8; 3]> = vec![
        [0x54u8, 0x47u8, 0x41u8],
        [0x54u8, 0x41u8, 0x47u8],
        [0x54u8, 0x41u8, 0x41u8],
    ];
    proof {
        assert(codon_views(starts@) =~= start_codons());
        assert(codon_views(stops@) =~= stop_codons());
    }
    count_orfs(&starts, &stops, MIN_ORF_LEN, seq)
}

/// The description of a record, or the empty text where it has none.
pub open spec fn desc_or_empty(desc: Option<Seq<char>>) -> Seq<char> {
    match desc {
        Some(d) => d,
        None => Seq::empty(),
    }
}

/// The result of analysing one record of the plain format: its metrics
/// where the record is valid, the invalid result where it is not.
pub open spec fn fasta_result_of(rec: FastaRecordView) -> FastaSeqResultView {
    if rec.is_valid() {
        FastaSeqResultView {
            id: rec.id,
            desc: desc_or_empty(rec.desc),
            gc_count: gc_count_of(rec.seq),
            n_orfs: orf_count_of(rec.seq),
            is_valid: true,
            seq_len: rec.seq.len(),
            result_type: "fasta"@,
        }
    } else {
        FastaSeqResultView::invalid()
    }
}

/// The result of analysing one record of the quality-annotated format: its
/// metrics where the record is valid and has a quality score, the invalid
/// result where it is not or has none.
pub open spec fn fastq_result_of(rec: FastqRecordView) -> FastqSeqResultView {
    if rec.is_valid() && phred_defined(rec.qual) {
        FastqSeqResultView {
            id: rec.id,
            desc: desc_or_empty(rec.desc),
            gc_count: gc_count_of(rec.seq),
            n_orfs: orf_count_of(rec.seq),
            is_valid: true,
            phred_score: phred_sum(rec.qual) as nat,
            seq_len: rec.seq.len(),
            result_type: "fastq"@,
        }
    } else {
        FastqSeqResultView::invalid()
    }
}

/// The results of analysing a list of plain records: one per record, in
/// the records' order.
pub open spec fn fasta_results_of(records: Seq<FastaRecordView>) -> Seq<FastaSeqResultView> {
    Seq::new(records.len(), |i: int| fasta_result_of(records[i]))
}

/// The results of analysing a list of quality-annotated records: one per
/// record, in the records' order.
pub open spec fn fastq_results_of(records: Seq<FastqRecordView>) -> Seq<FastqSeqResultView> {
    Seq::new(records.len(), |i: int| fastq_result_of(records[i]))
}

/// The views of a list of plain results.
pub open spec fn fasta_results_view(results: Seq<FastaSeqResult>) -> Seq<FastaSeqResultView> {
    Seq::new(results.len(), |i: int| results[i]@)
}

/// The views of a list of quality-annotated results.
pub open spec fn fastq_results_view(results: Seq<FastqSeqResult>) -> Seq<FastqSeqResultView> {
    Seq::new(results.len(), |i: int| results[i]@)
}

/// A result is valid exactly when its record was accepted, it counts no
/// more GC bases than bases, and where it is not valid it carries the fixed
/// identifier and zeros.
pub proof fn lemma_results_well_formed(fa: FastaRecordView, fq: FastqRecordView)
    ensures
        fasta_result_of(fa).well_formed(),
        fastq_result_of(fq).well_formed(),
        fasta_result_of(fa).is_valid == fa.is_valid(),
        fastq_result_of(fq).is_valid == (fq.is_valid() && phred_defined(fq.qual)),
        !fasta_result_of(fa).is_valid ==> fasta_result_of(fa) == FastaSeqResultView::invalid(),
        !fastq_result_of(fq).is_valid ==> fastq_result_of(fq) == FastqSeqResultView::invalid(),
{
    lemma_gc_count_bounded(fa.seq);
    lemma_gc_count_bounded(fq.seq);
}

/// Every record has its result: the results are as many as the records,
/// invalid records included.
pub proof fn lemma_one_result_per_record(fa: Seq<FastaRecordView>, fq: Seq<FastqRecordView>)
    ensures
        fasta_results_of(fa).len() == fa.len(),
        fastq_results_of(fq).len() == fq.len(),
{
}

/// The result of a record does not depend on the records around it:
/// analysing a list gives, at each place, the result of the record there.
pub proof fn lemma_results_independent(fa: Seq<FastaRecordView>, fq: Seq<FastqRecordView>, i: int)
    ensures
        0 <= i < fa.len() ==> fasta_results_of(fa)[i] == fasta_result_of(fa[i]),
        0 <= i < fq.len() ==> fastq_results_of(fq)[i] == fastq_result_of(fq[i]),
{
}

fn owned_desc(desc: &Option<String>) -> (text: String)
    ensures
        text@ == desc_or_empty(crate::records::opt_string_view(*desc)),
{
    match desc {
        Some(d) => d.clone(),
        None => String::new(),
    }
}

/// Analyses one record of the plain format.
pub fn analyse_fasta_record(rec: &FastaRecord) -> (result: FastaSeqResult)
    ensures
        result@ == fasta_result_of(rec@),
        result@.well_formed(),
{
    if rec.check() {
        FastaSeqResult {
            id: rec.id.clone(),
            desc: owned_desc(&rec.desc),
            gc_count: gc_count(rec.seq.as_slice()),
            n_orfs: find_orfs(rec.seq.as_slice()),
            is_valid: true,
            seq_len: rec.seq.len(),
            result_type: "fasta".to_owned(),
        }
    } else {
        FastaSeqResult::invalid()
    }
}

/// Analyses one record of the quality-annotated format. A record whose
/// quality track holds a byte below the offset, or whose score does not
/// fit, is rejected like a malformed one.
pub fn analyse_fastq_record(rec: &FastqRecord) -> (result: FastqSeqResult)
    ensures
        result@ == fastq_result_of(rec@),
        result@.well_formed(),
{
    if !rec.check() {
        return FastqSeqResult::invalid();
    }
    match checked_phred_score(rec.qual.as_slice()) {
        Some(score) => FastqSeqResult {
            id: rec.id.clone(),
            desc: owned_desc(&rec.desc),
            gc_count: gc_count(rec.seq.as_slice()),
            n_orfs: find_orfs(rec.seq.as_slice()),
            is_valid: true,
            phred_score: score,
            seq_len: rec.seq.len(),
            result_type: "fastq".to_owned(),
        },
        None => FastqSeqResult::invalid(),
    }
}

/// Analyses the records of the quality-annotated format in order: one
/// result per record, the invalid result in the place of a record that is
/// rejected.
pub fn analyse_fastq_records(records: &Vec<FastqRecord>) -> (results: Vec<FastqSeqResult>)
    ensures
        results@.len() == records@.len(),
        fastq_results_view(results@) == fastq_results_of(fastq_records_view(records@)),
{
    let mut results: Vec<FastqSeqResult> = Vec::new();
    let mut i: usize = 0;
    while i < records.len()
        invariant
            i <= records@.len(),
            results@.len() == i,
            forall|j: int| 0 <= j < i ==> (#[trigger] results@[j])@ == fastq_result_of(records@[j]@),
        decreases records@.len() - i,
    {
        let result = analyse_fastq_record(&records[i]);
        results.push(result);
        i = i + 1;
    }
    proof {
        assert(fastq_results_view(results@) =~= fastq_results_of(fastq_records_view(records@)));
    }
    results
}

/// Analyses the records of the plain format in order: one result per
/// record, the invalid result in the place of a record that is rejected.
pub fn analyse_fasta_records(records: &Vec<FastaRecord>) -> (results: Vec<FastaSeqResult>)
    ensures
        results@.len() == records@.len(),
        fasta_results_view(results@) == fasta_results_of(fasta_records_view(records@)),
{
    let mut results: Vec<FastaSeqResult> = Vec::new();
    let mut i: usize = 0;
    while i < records.len()
        invariant
            i <= records@.len(),
            results@.len() == i,
            forall|j: int| 0 <= j < i ==> (#[trigger] results@[j])@ == fasta_result_of(records@[j]@),
        decreases records@.len() - i,
    {
        let result = analyse_fasta_record(&records[i]);
        results.push(result);
        i = i + 1;
    }
    proof {
        assert(fasta_results_view(results@) =~= fasta_results_of(fasta_records_view(records@)));
    }
    results
}

} // verus!
