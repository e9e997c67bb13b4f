use seq_analyser::analysis::analysers::{
    analyse_fasta_record, analyse_fasta_records, analyse_fastq_record, analyse_fastq_records,
    calc_phred_score, checked_phred_score, find_orfs, gc_count,
};
use seq_analyser::analysis::commands::{
    analyse_fasta_file, analyse_fasta_sequences, analyse_fastq_file, analyse_fastq_sequences,
};
use seq_analyser::models::{FastaSeqResult, FastqSeqResult};
use seq_analyser::records::{FastaRecord, FastqRecord};

fn test_fq_contents() -> String {
    let mut fqs_str: String = "@id description\nATAT\n+\n!!!!\n".to_owned();
    for i in 2..21 {
        fqs_str.push_str(format!("@id{} description\nGCGC\n+\n!!!!\n", i).as_str());
    }
    fqs_str
}

fn test_fa_contents() -> String {
    let mut fqs_str: String = ">id description\nATAT\n".to_owned();
    for i in 2..21 {
        fqs_str.push_str(format!(">id{} description\nGCGC\n", i).as_str());
    }
    fqs_str
}

fn fastq_record(id: &str, seq: &[u8], qual: &[u8]) -> FastqRecord {
    FastqRecord { id: id.to_owned(), desc: None, seq: seq.to_vec(), qual: qual.to_vec() }
}

fn fasta_record(id: &str, seq: &[u8]) -> FastaRecord {
    FastaRecord { id: id.to_owned(), desc: None, seq: seq.to_vec() }
}

fn gc_fraction(gc_count: usize, seq_len: usize) -> f32 {
    if seq_len == 0 {
        0.0
    } else {
        gc_count as f32 / seq_len as f32
    }
}

/// A start codon, `inner` codons that are neither start nor stop, and the
/// stop codon TAA.
fn frame(inner: usize) -> Vec<u8> {
    let mut seq = b"ATG".to_vec();
    for _ in 0..inner {
        seq.extend_from_slice(b"GGG");
    }
    seq.extend_from_slice(b"TAA");
    seq
}

#[test]
fn analysis_test_analyse_fastq_sequences() {
    let mut fqs_str = "@id description\nATAT\n+\n!!!!\n".to_owned();
    fqs_str.push_str("@id description\nGCGC\n+\n!!!!\n");

    let results = analyse_fastq_sequences(fqs_str.as_str());
    assert_eq!(results.len(), 2);
}

#[test]
fn analysis_test_missing_fq_sequence() {
    let missing_sequence = "@id description\n\n+\n!!!!\n";

    let results = analyse_fastq_sequences(missing_sequence);
    assert_eq!(results.len(), 1);
    assert!(!results[0].is_valid);
}

#[test]
fn analysis_test_missing_fq_quality() {
    let missing_quality = "@id description\nATAT\n+\n\n";

    let results = analyse_fastq_sequences(missing_quality);
    assert_eq!(results.len(), 1);
    assert!(!results[0].is_valid);
}

#[test]
fn analysis_test_analyse_fastq_file() {
    let contents = test_fq_contents();
    let results = analyse_fastq_file("test_fastq.fq", contents.as_bytes()).unwrap();
    assert_eq!(results.len(), 20);
    for result in results {
        assert!(result.is_valid)
    }
}

#[test]
fn analysis_test_analyse_fasta_sequences() {
    let mut fas_str = ">id description\nATAT\n".to_owned();
    fas_str.push_str(">id description\nGCGC\n");

    let results = analyse_fasta_sequences(fas_str.as_str());
    assert_eq!(results.len(), 2);
}

#[test]
fn analysis_test_missing_fa_sequence() {
    let missing_sequence = ">id description\n";

    let results = analyse_fasta_sequences(missing_sequence);
    assert_eq!(results.len(), 1);
    assert_eq!(results[0].seq_len, 0);
    // A record without bases is not valid.
    assert!(!results[0].is_valid)
}

#[test]
fn analysis_test_analyse_fasta_file() {
    let contents = test_fa_contents();
    let results = analyse_fasta_file("test_fastq.fa", contents.as_bytes()).unwrap();
    assert_eq!(results.len(), 20);
    for result in results {
        assert!(result.is_valid)
    }
}

#[test]
fn test_calc_phred_score() {
    let qual_str = b"####";
    assert_eq!(calc_phred_score(qual_str), 8);

    let qual_str = b"!!!!";
    assert_eq!(calc_phred_score(qual_str), 0);

    let mut big_qual_str = String::from("####");
    for _i in 0..4999 {
        big_qual_str.push_str("####");
    }
    assert_eq!(calc_phred_score(big_qual_str.as_bytes()), (8 * 5000) as u32)
}

#[test]
fn test_cal_phred_score() {
    assert_eq!(calc_phred_score(b"!!!"), 0);
    assert_eq!(calc_phred_score(b"*+"), 19)
}

#[test]
fn phred_score_of_constant_tracks() {
    for n in 0..40usize {
        let bangs = vec![b'!'; n];
        let hashes = vec![b'#'; n];
        assert_eq!(checked_phred_score(&bangs), Some(0));
        assert_eq!(checked_phred_score(&hashes), Some(2 * n as u32));
    }
    assert_eq!(calc_phred_score(b""), 0);
    assert_eq!(calc_phred_score(b"~"), 93);
}

#[test]
fn phred_score_rejects_bytes_below_the_offset() {
    assert_eq!(checked_phred_score(b"!! !"), None);
    assert_eq!(checked_phred_score(b"\x00"), None);
    assert_eq!(checked_phred_score(b"###\x20"), None);
    assert_eq!(checked_phred_score(b"!"), Some(0));
    assert_eq!(checked_phred_score(b"\""), Some(1));
}

#[test]
fn gc_count_of_sequences() {
    assert_eq!(gc_count(b""), 0);
    assert_eq!(gc_count(b"ATAT"), 0);
    assert_eq!(gc_count(b"GCGC"), 4);
    assert_eq!(gc_count(b"gcgc"), 4);
    assert_eq!(gc_count(b"ATGC"), 2);
    assert_eq!(gc_count(b"GATATACA"), 2);
    assert_eq!(gc_count(b"NNNN"), 0);
    assert_eq!(gc_fraction(gc_count(b"ATAT"), 4), 0.0);
    assert_eq!(gc_fraction(gc_count(b"GCGC"), 4), 1.0);
    assert_eq!(gc_fraction(gc_count(b"ATGC"), 4), 0.5);
    assert_eq!(gc_fraction(gc_count(b""), 0), 0.0);
}

#[test]
fn gc_count_never_exceeds_the_length() {
    let seqs: [&[u8]; 5] = [b"", b"A", b"G", b"ACGTNacgtn", b"CCCCCCCCGGGGGGGG"];
    for seq in seqs {
        let n = gc_count(seq);
        assert!(n <= seq.len());
        let f = gc_fraction(n, seq.len());
        assert!((0.0..=1.0).contains(&f));
    }
}

#[test]
fn one_frame_of_sufficient_length_is_counted() {
    let seq = frame(15);
    assert_eq!(seq.len(), 51);
    assert_eq!(find_orfs(&seq), 1);

    let mut shifted = b"C".to_vec();
    shifted.extend_from_slice(&frame(16));
    shifted.extend_from_slice(b"CC");
    assert_eq!(find_orfs(&shifted), 1);
}

#[test]
fn short_frames_and_sequences_without_start_are_not_counted() {
    let short = frame(14);
    assert_eq!(short.len(), 48);
    assert_eq!(find_orfs(&short), 0);
    assert_eq!(find_orfs(b""), 0);
    assert_eq!(find_orfs(b"ATGTAA"), 0);

    let mut no_start = Vec::new();
    for _ in 0..30 {
        no_start.extend_from_slice(b"GGG");
    }
    no_start.extend_from_slice(b"TAA");
    assert_eq!(find_orfs(&no_start), 0);

    let mut no_stop = b"ATG".to_vec();
    for _ in 0..30 {
        no_stop.extend_from_slice(b"GGG");
    }
    assert_eq!(find_orfs(&no_stop), 0);
}

#[test]
fn frames_are_closed_by_the_first_stop_in_frame() {
    // An early stop in frame closes the frame before it is long enough.
    let mut early = b"ATGGGGTGA".to_vec();
    for _ in 0..20 {
        early.extend_from_slice(b"GGG");
    }
    early.extend_from_slice(b"TAA");
    assert_eq!(find_orfs(&early), 0);

    // A stop out of frame does not close it.
    let mut out_of_frame = b"ATGGTGAGG".to_vec();
    for _ in 0..20 {
        out_of_frame.extend_from_slice(b"GGG");
    }
    out_of_frame.extend_from_slice(b"TAG");
    assert_eq!(find_orfs(&out_of_frame), 1);
}

#[test]
fn overlapping_frames_are_counted_each() {
    // Two starts in one frame, closed by the same stop.
    let mut nested = b"ATGGGGATG".to_vec();
    for _ in 0..20 {
        nested.extend_from_slice(b"GGG");
    }
    nested.extend_from_slice(b"TGA");
    assert_eq!(find_orfs(&nested), 2);

    // Two frames one after the other.
    let mut twice = frame(20);
    twice.extend_from_slice(&frame(20));
    assert_eq!(find_orfs(&twice), 2);
}

#[test]
fn two_minimal_fastq_records_end_to_end() {
    let results = analyse_fastq_sequences("@id description\nATAT\n+\n!!!!\n@id description\nGCGC\n+\n!!!!\n");
    assert_eq!(results.len(), 2);
    assert!(results[0].is_valid);
    assert!(results[1].is_valid);
    assert_eq!(gc_fraction(results[0].gc_count, results[0].seq_len), 0.0);
    assert_eq!(gc_fraction(results[1].gc_count, results[1].seq_len), 1.0);
    assert_eq!(
        results[0],
        FastqSeqResult {
            id: "id".to_owned(),
            desc: "description".to_owned(),
            gc_count: 0,
            n_orfs: 0,
            is_valid: true,
            phred_score: 0,
            seq_len: 4,
            result_type: "fastq".to_owned(),
        }
    );
    assert_eq!(results[1].gc_count, 4);
    assert_eq!(results[1].seq_len, 4);
}

#[test]
fn two_minimal_fasta_records_end_to_end() {
    let results = analyse_fasta_sequences(">first one two\nATAT\n>second\nGCGC\nGC\n");
    assert_eq!(results.len(), 2);
    assert_eq!(
        results[0],
        FastaSeqResult {
            id: "first".to_owned(),
            desc: "one two".to_owned(),
            gc_count: 0,
            n_orfs: 0,
            is_valid: true,
            seq_len: 4,
            result_type: "fasta".to_owned(),
        }
    );
    assert_eq!(
        results[1],
        FastaSeqResult {
            id: "second".to_owned(),
            desc: "".to_owned(),
            gc_count: 6,
            n_orfs: 0,
            is_valid: true,
            seq_len: 6,
            result_type: "fasta".to_owned(),
        }
    );
}

#[test]
fn empty_sequence_line_yields_one_invalid_result() {
    let results = analyse_fastq_sequences("@id description\n\n+\n!!!!\n");
    assert_eq!(results.len(), 1);
    assert_eq!(results[0], FastqSeqResult::invalid());
    assert_eq!(results[0].id, "Invalid Record");
    assert_eq!(results[0].desc, "...");
    assert_eq!(results[0].result_type, "fastq");
    assert_eq!(results[0].gc_count, 0);
    assert_eq!(results[0].n_orfs, 0);
    assert_eq!(results[0].phred_score, 0);
    assert_eq!(results[0].seq_len, 0);
}

#[test]
fn a_bad_record_does_not_discard_the_others() {
    let text = "@a\nATAT\n+\n####\n@b\nGCGC\n+\n##\n@c\nGGCC\n+\n!!!!\n";
    let results = analyse_fastq_sequences(text);
    assert_eq!(results.len(), 3);
    assert!(results[0].is_valid);
    assert_eq!(results[0].id, "a");
    assert_eq!(results[0].phred_score, 8);
    assert!(!results[1].is_valid);
    assert_eq!(results[1].id, "Invalid Record");
    assert!(results[2].is_valid);
    assert_eq!(results[2].id, "c");
    assert_eq!(results[2].gc_count, 4);
}

#[test]
fn records_are_judged_by_the_validity_rule() {
    assert!(fastq_record("id", b"ATAT", b"!!!!").check());
    assert!(!fastq_record("", b"ATAT", b"!!!!").check());
    assert!(!fastq_record("id", b"", b"").check());
    assert!(!fastq_record("id", b"", b"!!!!").check());
    assert!(!fastq_record("id", b"ATAT", b"").check());
    assert!(!fastq_record("id", b"ATAT", b"!!!").check());
    assert!(!fastq_record("id", b"ATAT", b"!!!!!").check());
    assert!(!FastqRecord::new().check());

    assert!(fasta_record("id", b"ATAT").check());
    assert!(!fasta_record("", b"ATAT").check());
    assert!(!fasta_record("id", b"").check());
    assert!(!FastaRecord::new().check());
}

#[test]
fn analysis_of_records_keeps_order_and_number() {
    let records = vec![
        fastq_record("one", b"ATGC", b"####"),
        FastqRecord::new(),
        fastq_record("three", b"GG", b"!\x1f"),
        FastqRecord {
            id: "four".to_owned(),
            desc: Some("last one".to_owned()),
            seq: b"CCAT".to_vec(),
            qual: b"!\"#$".to_vec(),
        },
    ];
    let results = analyse_fastq_records(&records);
    assert_eq!(results.len(), records.len());
    assert_eq!(results[0].id, "one");
    assert_eq!(results[0].desc, "");
    assert_eq!(results[0].gc_count, 2);
    assert_eq!(results[0].phred_score, 8);
    assert_eq!(results[1], FastqSeqResult::invalid());
    // A quality byte below the offset rejects the record.
    assert_eq!(results[2], FastqSeqResult::invalid());
    assert_eq!(results[3].id, "four");
    assert_eq!(results[3].desc, "last one");
    assert_eq!(results[3].phred_score, 6);
    assert_eq!(results[3].seq_len, 4);
    for (i, rec) in records.iter().enumerate() {
        assert_eq!(results[i], analyse_fastq_record(rec));
    }

    let plain = vec![fasta_record("one", b"ATGC"), FastaRecord::new(), fasta_record("x", &frame(15))];
    let results = analyse_fasta_records(&plain);
    assert_eq!(results.len(), 3);
    assert_eq!(results[0].gc_count, 2);
    assert_eq!(results[1], FastaSeqResult::invalid());
    assert_eq!(results[2].n_orfs, 1);
    assert_eq!(results[2].seq_len, 51);
    for (i, rec) in plain.iter().enumerate() {
        assert_eq!(results[i], analyse_fasta_record(rec));
    }
}

#[test]
fn default_results_are_blank() {
    let fq = FastqSeqResult::default();
    assert_eq!(fq.id, "id");
    assert_eq!(fq.desc, "...");
    assert_eq!(fq.gc_count, 0);
    assert_eq!(fq.n_orfs, 0);
    assert!(!fq.is_valid);
    assert_eq!(fq.phred_score, 0);
    assert_eq!(fq.seq_len, 0);
    assert_eq!(fq.result_type, "fastq");
    assert_eq!(fq.clone(), fq);

    let fa = FastaSeqResult::default();
    assert_eq!(fa.id, "id");
    assert_eq!(fa.desc, "...");
    assert_eq!(fa.gc_count, 0);
    assert_eq!(fa.n_orfs, 0);
    assert!(!fa.is_valid);
    assert_eq!(fa.seq_len, 0);
    assert_eq!(fa.result_type, "fasta");
    assert_eq!(fa.clone(), fa);
    assert_eq!(FastaSeqResult::invalid().id, "Invalid Record");
}

/// The count taken directly: for every start codon, the first stop codon
/// after it in its frame, counted where the span has at least 50 bases.
fn scan_orfs(seq: &[u8]) -> usize {
    let is_stop = |c: &[u8]| c == b"TGA" || c == b"TAG" || c == b"TAA";
    let mut count = 0;
    let mut s = 0;
    while s + 3 <= seq.len() {
        if &seq[s..s + 3] == b"ATG" {
            let mut e = s + 3;
            while e + 3 <= seq.len() {
                if is_stop(&seq[e..e + 3]) {
                    if e + 3 - s >= 50 {
                        count += 1;
                    }
                    break;
                }
                e += 3;
            }
        }
        s += 1;
    }
    count
}

#[test]
fn orf_count_agrees_with_a_direct_scan() {
    let mut state: u64 = 0x2545f4914f6cdd1d;
    let mut found_some = false;
    for round in 0..300usize {
        let len = (round * 7) % 400;
        let mut seq = Vec::with_capacity(len);
        for _ in 0..len {
            state = state.wrapping_mul(6364136223846793005).wrapping_add(1442695040888963407);
            seq.push(b"ACGT"[(state >> 33) as usize % 4]);
        }
        let n = find_orfs(&seq);
        assert_eq!(n, scan_orfs(&seq));
        if len < 50 {
            assert_eq!(n, 0);
        }
        if !seq.windows(3).any(|w| w == b"ATG") {
            assert_eq!(n, 0);
        }
        found_some = found_some || n > 0;
    }
    assert!(found_some);
}
