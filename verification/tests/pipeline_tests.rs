use fasta_dedup::pipeline::{run_pipeline, PipelineError, Policy};
use fasta_dedup::record::Record;
use fasta_dedup::rule::select_rule;

fn rec(id: &str, desc: Option<&str>, seq: &[u8]) -> Record {
    Record { id: String::from(id), desc: desc.map(String::from), seq: seq.to_vec() }
}

fn policy() -> Policy {
    Policy {
        ignore_unmatched: false,
        ignore_empty: false,
        first_seq_only: false,
        no_replace: true,
        explain: false,
    }
}

#[test]
fn header_reconstruction_joins_id_and_description() {
    let r = rec("seq1", Some("desc text"), b"ACGT");
    assert_eq!(r.effective_header(), "seq1 desc text");
    let r2 = rec("seq1", None, b"ACGT");
    assert_eq!(r2.effective_header(), "seq1");
}

#[test]
fn identical_taxo_and_sequence_dedup() {
    let rule = select_rule("(?P<taxo>[A-Z]+)\n", 1, false).unwrap();
    let records = vec![rec("AAA one", None, b"ACGT"), rec("AAA two", None, b"ACGT")];
    let out = run_pipeline(&rule, &policy(), &records).unwrap();
    assert_eq!(out.stats.total, 2);
    assert_eq!(out.stats.emitted, 1);
    assert_eq!(out.stats.duplicated, 1);
    assert_eq!(out.emitted.len(), 1);
    assert_eq!(out.emitted[0].id, "AAA one");
    assert_eq!(out.state.dup_taxa_count(), 1);
    let entry = out.state.dup_entry(0);
    assert_eq!(entry.taxo, "AAA");
    assert!(entry.count >= 1);
}

#[test]
fn different_sequences_are_both_emitted() {
    let rule = select_rule("(?P<taxo>[A-Z]+)\n", 1, false).unwrap();
    let records = vec![rec("AAA one", None, b"ACGT"), rec("AAA two", None, b"ACGA")];
    let out = run_pipeline(&rule, &policy(), &records).unwrap();
    assert_eq!(out.stats.emitted, 2);
    assert_eq!(out.stats.duplicated, 0);
    assert_eq!(out.state.dup_taxa_count(), 0);
}

#[test]
fn unseparated_key_collides_across_boundaries() {
    // taxo "AB" + sequence "CD" and taxo "ABC" + sequence "D" share one
    // deduplication key: the composite key has no separator
    let rule = select_rule("(?P<taxo>[A-Z]+)\n", 1, false).unwrap();
    let records = vec![rec("AB x", None, b"CD"), rec("ABC x", None, b"D")];
    let out = run_pipeline(&rule, &policy(), &records).unwrap();
    assert_eq!(out.stats.emitted, 1);
    assert_eq!(out.stats.duplicated, 1);
}

#[test]
fn first_sequence_only_per_taxon() {
    let rule = select_rule("(?P<taxo>[A-Z]+)\n", 1, false).unwrap();
    let mut p = policy();
    p.first_seq_only = true;
    let records = vec![
        rec("AAA one", None, b"AC"),
        rec("AAA two", None, b"GT"),
        rec("BBB one", None, b"TT"),
        rec("AAA three", None, b"CC"),
    ];
    let out = run_pipeline(&rule, &p, &records).unwrap();
    assert_eq!(out.stats.total, 4);
    assert_eq!(out.stats.emitted, 2);
    assert_eq!(out.stats.skipped_not_first, 2);
    assert_eq!(out.emitted.len(), 2);
    assert_eq!(out.emitted[0].id, "AAA one");
    assert_eq!(out.emitted[1].id, "BBB one");
}

#[test]
fn empty_sequence_participates_when_not_ignored() {
    let rule = select_rule("(?P<taxo>[A-Z]+)\n", 1, false).unwrap();
    let records = vec![rec("AAA one", None, b""), rec("AAA two", None, b"")];
    let out = run_pipeline(&rule, &policy(), &records).unwrap();
    assert_eq!(out.stats.empty_seq, 2);
    assert_eq!(out.stats.emitted, 1);
    assert_eq!(out.stats.duplicated, 1);
    assert_eq!(out.emitted[0].seq, b"".to_vec());
}

#[test]
fn empty_sequence_skipped_when_ignored() {
    let rule = select_rule("(?P<taxo>[A-Z]+)\n", 1, false).unwrap();
    let mut p = policy();
    p.ignore_empty = true;
    let records = vec![rec("AAA one", None, b""), rec("AAA two", None, b"ACGT")];
    let out = run_pipeline(&rule, &p, &records).unwrap();
    assert_eq!(out.stats.total, 2);
    assert_eq!(out.stats.empty_seq, 1);
    assert_eq!(out.stats.emitted, 1);
    assert_eq!(out.emitted[0].id, "AAA two");
}

#[test]
fn unmatched_header_aborts_when_not_ignored() {
    let rule = select_rule("(?P<taxo>[A-Z]+)\n", 1, false).unwrap();
    let records = vec![rec("123", None, b"ACGT")];
    let r = run_pipeline(&rule, &policy(), &records);
    match r {
        Err(PipelineError::UnmatchedHeader { header }) => assert_eq!(header, "123"),
        _ => panic!("expected UnmatchedHeader"),
    }
}

#[test]
fn unmatched_header_skipped_when_ignored() {
    let rule = select_rule("(?P<taxo>[A-Z]+)\n", 1, false).unwrap();
    let mut p = policy();
    p.ignore_unmatched = true;
    let records = vec![rec("123", None, b"ACGT"), rec("AAA x", None, b"ACGT")];
    let out = run_pipeline(&rule, &p, &records).unwrap();
    assert_eq!(out.stats.total, 2);
    assert_eq!(out.stats.unmatched, 1);
    assert_eq!(out.stats.emitted, 1);
}

#[test]
fn missing_taxo_group_is_always_fatal() {
    let rule = select_rule("[A-Z]+\n", 1, false).unwrap();
    let mut p = policy();
    p.ignore_unmatched = true;
    let records = vec![rec("AAA x", None, b"ACGT")];
    let r = run_pipeline(&rule, &p, &records);
    match r {
        Err(PipelineError::MissingTaxoGroup { header }) => assert_eq!(header, "AAA x"),
        _ => panic!("expected MissingTaxoGroup"),
    }
}

#[test]
fn replacement_rewrites_the_header() {
    let rule = select_rule("(?P<taxo>[A-Z]+) .*\ttaxon_$taxo\n", 1, true).unwrap();
    let mut p = policy();
    p.no_replace = false;
    let records = vec![rec("AAA", Some("rest of header"), b"ACGT")];
    let out = run_pipeline(&rule, &p, &records).unwrap();
    assert_eq!(out.emitted[0].id, "taxon_AAA");
    assert!(out.emitted[0].desc.is_none());
}

#[test]
fn no_replace_keeps_the_header() {
    let rule = select_rule("(?P<taxo>[A-Z]+)\n", 1, false).unwrap();
    let records = vec![rec("AAA", Some("kept text"), b"ACGT")];
    let out = run_pipeline(&rule, &policy(), &records).unwrap();
    assert_eq!(out.emitted[0].id, "AAA kept text");
}

#[test]
fn counters_balance_over_a_mixed_run() {
    let rule = select_rule("(?P<taxo>[A-Z]+)\n", 1, false).unwrap();
    let mut p = policy();
    p.ignore_unmatched = true;
    p.ignore_empty = true;
    p.first_seq_only = true;
    let records = vec![
        rec("AB one", None, b"CD"),
        // same key as "AB" + "CD", but a fresh taxon: a duplicate
        rec("ABC one", None, b"D"),
        rec("123 nomatch", None, b"AC"),
        rec("BBB empty", None, b""),
        rec("AB later", None, b"GG"),
        rec("CCC new", None, b"TT"),
    ];
    let out = run_pipeline(&rule, &p, &records).unwrap();
    assert_eq!(out.stats.total, 6);
    assert_eq!(
        out.stats.total,
        out.stats.emitted + out.stats.duplicated + out.stats.empty_seq + out.stats.unmatched
            + out.stats.skipped_not_first,
    );
    assert_eq!(out.stats.emitted, 2);
    assert_eq!(out.stats.duplicated, 1);
    assert_eq!(out.stats.unmatched, 1);
    assert_eq!(out.stats.empty_seq, 1);
    assert_eq!(out.stats.skipped_not_first, 1);
}

#[test]
fn dedup_key_uses_lossy_decoding_of_the_sequence() {
    // the key holds the lossily decoded sequence: distinct invalid byte
    // sequences that decode to the same replacement character collide
    let rule = select_rule("(?P<taxo>[A-Z]+)\n", 1, false).unwrap();
    let records = vec![rec("AAA one", None, &[0xFF]), rec("AAA two", None, &[0xFE])];
    let out = run_pipeline(&rule, &policy(), &records).unwrap();
    assert_eq!(out.stats.emitted, 1);
    assert_eq!(out.stats.duplicated, 1);
}

#[test]
fn two_runs_give_identical_output() {
    let rule = select_rule("(?P<taxo>[A-Z]+)\n", 1, false).unwrap();
    let records = vec![
        rec("AAA one", None, b"AC"),
        rec("BBB one", None, b"GT"),
        rec("AAA two", None, b"AC"),
        rec("CCC one", None, b"TT"),
    ];
    let out1 = run_pipeline(&rule, &policy(), &records).unwrap();
    let out2 = run_pipeline(&rule, &policy(), &records).unwrap();
    assert_eq!(out1.stats, out2.stats);
    assert_eq!(out1.emitted.len(), out2.emitted.len());
    for i in 0..out1.emitted.len() {
        assert_eq!(out1.emitted[i].id, out2.emitted[i].id);
        assert_eq!(out1.emitted[i].seq, out2.emitted[i].seq);
    }
    assert_eq!(out1.state.dup_taxa_count(), out2.state.dup_taxa_count());
}
