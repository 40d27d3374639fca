use fasta_dedup::explain::build_explain;
use fasta_dedup::pipeline::{run_pipeline, Policy};
use fasta_dedup::record::Record;
use fasta_dedup::rule::select_rule;

fn explain_policy() -> Policy {
    Policy {
        ignore_unmatched: false,
        ignore_empty: false,
        first_seq_only: false,
        no_replace: true,
        explain: true,
    }
}

#[test]
fn build_explain_decorates_the_report() {
    let groups = vec![Some(String::from("123")), Some(String::from("123"))];
    let lines =
        build_explain(&String::from("AB123 xyz"), 2, 5, &groups, &String::from("N123"));
    assert_eq!(
        lines,
        vec![
            String::from("Original header and taxo capture group (chars 2 to 5):"),
            String::from("   0-   9|AB123 xyz"),
            String::from("            ^^^"),
            String::from(""),
            String::from("List of captured groups, enclosed with \":"),
            String::from("|1: \"123\""),
            String::from(""),
            String::from("New header:"),
            String::from("N123"),
        ],
    );
}

#[test]
fn build_explain_marks_the_span() {
    let lines = build_explain(&String::from("abcdef"), 1, 4, &Vec::new(), &String::from("new"));
    assert_eq!(
        lines,
        vec![
            String::from("Original header and taxo capture group (chars 1 to 4):"),
            String::from("   0-   6|abcdef"),
            String::from("           ^^^"),
            String::from(""),
            String::from("List of captured groups, enclosed with \":"),
            String::from(""),
            String::from("New header:"),
            String::from("new"),
        ],
    );
}

#[test]
fn build_explain_clamps_offsets_past_the_end() {
    let lines = build_explain(&String::from("abc"), 2, 9, &Vec::new(), &String::from("n"));
    // the heading echoes the raw offsets; the marker is clamped into
    // the header
    assert_eq!(lines[0], "Original header and taxo capture group (chars 2 to 9):");
    assert_eq!(lines[1], "   0-   3|abc");
    assert_eq!(lines[2], "            ^");
}

#[test]
fn explain_mode_reports_and_halts() {
    let rule = select_rule("(?P<taxo>[A-Z]+)\n", 1, false).unwrap();
    let records = vec![
        Record { id: String::from("AAA"), desc: Some(String::from("rest")), seq: vec![b'A'] },
        Record { id: String::from("BBB"), desc: None, seq: vec![b'C'] },
    ];
    let out = run_pipeline(&rule, &explain_policy(), &records).unwrap();
    let lines = out.explained.expect("explain report expected");
    assert_eq!(
        lines,
        vec![
            String::from("Original header and taxo capture group (chars 0 to 3):"),
            String::from("   0-   8|AAA rest"),
            String::from("          ^^^"),
            String::from(""),
            String::from("List of captured groups, enclosed with \":"),
            String::from("|1: \"AAA\""),
            String::from(""),
            String::from("New header:"),
            String::from("AAA rest"),
        ],
    );
    // the run halts at the explained record: nothing is emitted and the
    // second record is never read
    assert_eq!(out.emitted.len(), 0);
    assert_eq!(out.stats.total, 0);
}

#[test]
fn explain_marker_length_equals_capture_span() {
    let rule = select_rule("id (?P<taxo>TAXO)\n", 1, false).unwrap();
    let records = vec![Record {
        id: String::from("id"),
        desc: Some(String::from("TAXO tail")),
        seq: vec![b'A'],
    }];
    let out = run_pipeline(&rule, &explain_policy(), &records).unwrap();
    let lines = out.explained.expect("explain report expected");
    // capture span: chars 3 to 7 of "id TAXO tail"
    assert_eq!(lines[0], "Original header and taxo capture group (chars 3 to 7):");
    assert_eq!(lines[1], "   0-  12|id TAXO tail");
    assert_eq!(lines[2], "             ^^^^");
    let carets: usize = lines.iter().map(|l| l.chars().filter(|c| *c == '^').count()).sum();
    assert_eq!(carets, 7 - 3);
    let non_space: usize = lines[2].chars().filter(|c| *c != ' ').count();
    assert_eq!(non_space, 7 - 3);
}

#[test]
fn explain_splits_long_headers_into_segments() {
    let mut id = String::from("TAXO");
    for _ in 0..96 {
        id.push('x');
    }
    let rule = select_rule("(?P<taxo>TAXO)\n", 1, false).unwrap();
    let records = vec![Record { id: id.clone(), desc: None, seq: vec![b'A'] }];
    let out = run_pipeline(&rule, &explain_policy(), &records).unwrap();
    let lines = out.explained.expect("explain report expected");
    assert_eq!(lines.len(), 11);
    assert_eq!(lines[0], "Original header and taxo capture group (chars 0 to 4):");
    assert_eq!(lines[1], format!("   0-  80|{}", &id[0..80]));
    assert_eq!(lines[2], "          ^^^^");
    assert_eq!(lines[3], format!("  80- 100|{}", &id[80..100]));
    assert_eq!(lines[4], "");
    assert_eq!(lines[5], "");
    assert_eq!(lines[6], "List of captured groups, enclosed with \":");
    assert_eq!(lines[7], "|1: \"TAXO\"");
    assert_eq!(lines[8], "");
    assert_eq!(lines[9], "New header:");
    assert_eq!(lines[10], id);
}
