use vstd::prelude::*;
use crate::matching::{regex_ok, CompiledRegex};
use crate::text::{chars_of, split_chars, split_chars_exec, string_from_chars};

verus! {

/// A line of the rule file that takes part in selection: not empty and
/// not a comment.
pub open spec fn is_candidate(line: Seq<char>) -> bool {
    line.len() > 0 && line[0] != '#'
}

/// The candidate lines of the rule file, in order.  Comment lines and
/// empty lines are left out of the count, so the `n`-th candidate is
/// selected by `n` no matter how many comments stand before it.
pub open spec fn candidate_lines(text: Seq<char>) -> Seq<Seq<char>> {
    split_chars(text, '\n').filter(|l: Seq<char>| is_candidate(l))
}

/// The tab-separated fields of one candidate line.
pub open spec fn rule_fields(line: Seq<char>) -> Seq<Seq<char>> {
    split_chars(line, '\t')
}

/// How many fields a candidate line must have: the match pattern alone,
/// or the match pattern and the replacement template.
pub open spec fn expected_fields(replacement_expected: bool) -> nat {
    if replacement_expected {
        2
    } else {
        1
    }
}

/// A fatal configuration error raised while selecting the rule.
#[derive(Debug)]
pub enum ConfigError {
    /// The requested line number was zero; numbering starts at 1.
    LineNumberZero,
    /// The file has fewer candidate lines than the requested number.
    NoSuchLine { requested: usize, candidates: usize },
    /// The selected line has the wrong number of tab-separated fields.
    FieldCount { line: String, expected: usize, actual: usize },
    /// The match pattern does not compile.
    BadMatchPattern { pattern: String },
    /// The replacement template is not well-formed.
    BadReplaceTemplate { template: String },
}

/// The rule for one run: a compiled match pattern and, when header
/// replacement is enabled, the replacement template.
pub struct Rule {
    pub regex: CompiledRegex,
    pub template: Option<String>,
}

impl Rule {
    pub open spec fn pattern(&self) -> Seq<char> {
        self.regex.pattern()
    }

    pub open spec fn template_view(&self) -> Option<Seq<char>> {
        match self.template {
            Some(t) => Some(t@),
            None => None,
        }
    }
}

/// When rule selection succeeds: the line number names a candidate line,
/// that line has exactly the expected number of fields, its match
/// pattern compiles, and its template (when expected) is well-formed.
pub open spec fn select_ok(text: Seq<char>, line_number: usize, replacement_expected: bool) -> bool {
    let cands = candidate_lines(text);
    &&& line_number >= 1
    &&& line_number <= cands.len()
    &&& {
        let fields = rule_fields(cands[line_number - 1]);
        &&& fields.len() == expected_fields(replacement_expected)
        &&& regex_ok(fields[0])
        &&& (replacement_expected ==> regex_ok(fields[1]))
    }
}

/// Picks the `line_number`-th candidate line of the rule file, checks its
/// field count, and compiles its pattern (and validates its template).
pub fn select_rule(text: &str, line_number: usize, replacement_expected: bool) -> (r: Result<
    Rule,
    ConfigError,
>)
    ensures
        r is Ok <==> select_ok(text@, line_number, replacement_expected),
        ({
            let cands = candidate_lines(text@);
            match r {
                Ok(rule) => {
                    let fields = rule_fields(cands[line_number - 1]);
                    &&& rule.pattern() == fields[0]
                    &&& rule.template_view() == (if replacement_expected {
                        Some(fields[1])
                    } else {
                        None::<Seq<char>>
                    })
                },
                Err(e) => match e {
                    ConfigError::LineNumberZero => line_number == 0,
                    ConfigError::NoSuchLine { requested, candidates } => {
                        &&& line_number >= 1
                        &&& requested == line_number
                        &&& candidates == cands.len()
                        &&& cands.len() < line_number
                    },
                    ConfigError::FieldCount { line, expected, actual } => {
                        &&& 1 <= line_number <= cands.len()
                        &&& line@ == cands[line_number - 1]
                        &&& expected == expected_fields(replacement_expected)
                        &&& actual == rule_fields(cands[line_number - 1]).len()
                        &&& actual != expected
                    },
                    ConfigError::BadMatchPattern { pattern } => {
                        &&& 1 <= line_number <= cands.len()
                        &&& rule_fields(cands[line_number - 1]).len() == expected_fields(
                            replacement_expected,
                        )
                        &&& pattern@ == rule_fields(cands[line_number - 1])[0]
                        &&& !regex_ok(pattern@)
                    },
                    ConfigError::BadReplaceTemplate { template } => {
                        &&& replacement_expected
                        &&& 1 <= line_number <= cands.len()
                        &&& rule_fields(cands[line_number - 1]).len() == 2
                        &&& regex_ok(rule_fields(cands[line_number - 1])[0])
                        &&& template@ == rule_fields(cands[line_number - 1])[1]
                        &&& !regex_ok(template@)
                    },
                },
            }
        }),
{
    let chars = chars_of(text);
    let lines = split_chars_exec(&chars, '\n');
    let ghost pred = |l: Seq<char>| is_candidate(l);
    let mut cands: Vec<Vec<char>> = Vec::new();
    let mut li: usize = 0;
    proof {
        reveal(Seq::filter);
        assert(lines.deep_view().subrange(0, 0) =~= Seq::<Seq<char>>::empty());
        assert(cands.deep_view() =~~= lines.deep_view().subrange(0, 0).filter(pred));
    }
    while li < lines.len()
        invariant
            li <= lines@.len(),
            lines.deep_view() == split_chars(text@, '\n'),
            cands.deep_view() == lines.deep_view().subrange(0, li as int).filter(pred),
            pred == (|l: Seq<char>| is_candidate(l)),
        decreases lines@.len() - li,
    {
        let line = &lines[li];
        let ghost pre = lines.deep_view().subrange(0, li as int);
        let ghost pre2 = lines.deep_view().subrange(0, li + 1);
        proof {
            reveal(Seq::filter);
            assert(lines.deep_view()[li as int] == line@);
            assert(pre2.drop_last() =~= pre);
            assert(pre2.last() == line@);
        }
        if line.len() > 0 && line[0] != '#' {
            let copy = crate::text::subvec(line, 0, line.len());
            cands.push(copy);
            proof {
                assert(is_candidate(line@));
                assert(cands.deep_view() =~~= pre2.filter(pred));
            }
        } else {
            proof {
                assert(!is_candidate(line@));
                assert(cands.deep_view() =~~= pre2.filter(pred));
            }
        }
        li = li + 1;
    }
    proof {
        assert(lines.deep_view().subrange(0, lines@.len() as int) =~= lines.deep_view());
        assert(cands.deep_view() == candidate_lines(text@));
    }
    if line_number == 0 {
        return Err(ConfigError::LineNumberZero);
    }
    if cands.len() < line_number {
        return Err(ConfigError::NoSuchLine { requested: line_number, candidates: cands.len() });
    }
    let line = &cands[line_number - 1];
    proof {
        assert(line@ == candidate_lines(text@)[line_number - 1]);
    }
    let fields = split_chars_exec(line, '\t');
    let expected: usize = if replacement_expected {
        2
    } else {
        1
    };
    if fields.len() != expected {
        return Err(
            ConfigError::FieldCount {
                line: string_from_chars(line),
                expected,
                actual: fields.len(),
            },
        );
    }
    proof {
        assert(fields.deep_view()[0] == fields@[0]@);
    }
    let pattern = string_from_chars(&fields[0]);
    let compiled = match CompiledRegex::compile(pattern.as_str()) {
        Some(c) => c,
        None => {
            return Err(ConfigError::BadMatchPattern { pattern });
        },
    };
    if replacement_expected {
        proof {
            assert(fields.deep_view()[1] == fields@[1]@);
        }
        let template = string_from_chars(&fields[1]);
        match CompiledRegex::compile(template.as_str()) {
            Some(_) => Ok(Rule { regex: compiled, template: Some(template) }),
            None => Err(ConfigError::BadReplaceTemplate { template }),
        }
    } else {
        Ok(Rule { regex: compiled, template: None })
    }
}

} // verus!
