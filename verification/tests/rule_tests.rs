use fasta_dedup::rule::{select_rule, ConfigError};

#[test]
fn selects_first_candidate_line() {
    let text = "# a comment\n\n(?P<taxo>[A-Z]+)\tnew_$taxo\n";
    let rule = select_rule(text, 1, true).unwrap();
    assert_eq!(rule.template.as_deref(), Some("new_$taxo"));
}

#[test]
fn comments_and_blanks_do_not_count() {
    let text = "# one\n\n# two\nfirst_(?P<taxo>\\d+)\n# three\nsecond_(?P<taxo>\\d+)\n";
    let rule = select_rule(text, 2, false).unwrap();
    assert!(rule.template.is_none());
    // the second candidate is the "second_" pattern
    let policy = fasta_dedup::pipeline::Policy {
        ignore_unmatched: false,
        ignore_empty: false,
        first_seq_only: false,
        no_replace: true,
        explain: false,
    };
    let records = vec![fasta_dedup::record::Record {
        id: String::from("second_77"),
        desc: None,
        seq: vec![b'A'],
    }];
    let out = fasta_dedup::pipeline::run_pipeline(&rule, &policy, &records).unwrap();
    assert_eq!(out.stats.emitted, 1);
}

#[test]
fn line_number_zero_is_fatal() {
    let r = select_rule("a\n", 0, false);
    assert!(matches!(r, Err(ConfigError::LineNumberZero)));
}

#[test]
fn missing_line_is_fatal() {
    let r = select_rule("# only comments\n\n", 1, false);
    match r {
        Err(ConfigError::NoSuchLine { requested, candidates }) => {
            assert_eq!(requested, 1);
            assert_eq!(candidates, 0);
        },
        _ => panic!("expected NoSuchLine"),
    }
}

#[test]
fn too_few_fields_is_fatal() {
    let r = select_rule("justone\n", 1, true);
    match r {
        Err(ConfigError::FieldCount { line, expected, actual }) => {
            assert_eq!(line, "justone");
            assert_eq!(expected, 2);
            assert_eq!(actual, 1);
        },
        _ => panic!("expected FieldCount"),
    }
}

#[test]
fn too_many_fields_is_fatal() {
    let r = select_rule("a\tb\tc\n", 1, true);
    match r {
        Err(ConfigError::FieldCount { expected, actual, .. }) => {
            assert_eq!(expected, 2);
            assert_eq!(actual, 3);
        },
        _ => panic!("expected FieldCount"),
    }
}

#[test]
fn two_fields_without_replacement_is_fatal() {
    // with replacement disabled the line must hold exactly one field
    let r = select_rule("a\tb\n", 1, false);
    assert!(matches!(r, Err(ConfigError::FieldCount { .. })));
}

#[test]
fn invalid_match_pattern_is_fatal() {
    let r = select_rule("foo(bar\n", 1, false);
    match r {
        Err(ConfigError::BadMatchPattern { pattern }) => assert_eq!(pattern, "foo(bar"),
        _ => panic!("expected BadMatchPattern"),
    }
}

#[test]
fn invalid_replace_template_is_fatal() {
    let r = select_rule("(?P<taxo>a)\tfoo(bar\n", 1, true);
    match r {
        Err(ConfigError::BadReplaceTemplate { template }) => assert_eq!(template, "foo(bar"),
        _ => panic!("expected BadReplaceTemplate"),
    }
}

#[test]
fn final_line_without_newline_is_selectable() {
    let rule = select_rule("(?P<taxo>.+)", 1, false).unwrap();
    assert!(rule.template.is_none());
}

#[test]
fn hash_inside_a_line_is_not_a_comment() {
    let r = select_rule("ab#cd\n", 1, false);
    assert!(r.is_ok());
}

#[test]
fn selecting_past_last_candidate_is_fatal() {
    let r = select_rule("one\ntwo\n", 3, false);
    match r {
        Err(ConfigError::NoSuchLine { requested, candidates }) => {
            assert_eq!(requested, 3);
            assert_eq!(candidates, 2);
        },
        _ => panic!("expected NoSuchLine"),
    }
}
