use vstd::prelude::*;
use vstd::string::StringExecFns;
use crate::dedup::{dup_bump, dup_count_of, lemma_dup_index_bounds, DedupState};
use crate::explain::{build_explain, explain_lines};
use crate::matching::{
    lossy_decode, regex_groups, regex_matches, regex_replaced, regex_taxo, regex_taxo_end,
    regex_taxo_start, utf8_lossy,
};
use crate::record::Record;
use crate::rule::Rule;
use crate::stats::RunStats;

verus! {

/// The per-record policy switches of one run.
#[derive(Clone, Copy, PartialEq, Eq, Structural)]
pub struct Policy {
    pub ignore_unmatched: bool,
    pub ignore_empty: bool,
    pub first_seq_only: bool,
    pub no_replace: bool,
    pub explain: bool,
}

/// How one record was classified.
pub enum Outcome {
    /// Accepted: carry this transformed record onward to the output.
    Emitted(Record),
    /// Its deduplication key was seen before; the record is dropped and
    /// counted.
    Duplicate,
    /// Its sequence is empty and such records are ignored.
    SkippedEmpty,
    /// Its header does not match and such records are ignored.
    SkippedUnmatched,
    /// Its taxon already offered a sequence and only the first counts.
    SkippedNotFirst,
    /// The diagnostic report for this record; the run halts here.
    Explained(Vec<String>),
}

/// A fatal error: the run aborts at the offending record.
#[derive(Debug)]
pub enum PipelineError {
    /// The header does not match the rule's pattern, and unmatched
    /// headers are not ignored.
    UnmatchedHeader { header: String },
    /// The pattern matched, but no participating capture group named
    /// `taxo` exists; fatal no matter the policy.
    MissingTaxoGroup { header: String },
}

/// The deduplication key: the taxo key and the decoded sequence bytes,
/// concatenated with no separator.
pub open spec fn dedup_key(taxo: Seq<char>, sq: Seq<u8>) -> Seq<char> {
    taxo + lossy_decode(sq)
}

/// The rewritten header: the header itself when replacement is off,
/// else the leftmost match replaced by the template's expansion.
pub open spec fn new_header_of(
    policy: Policy,
    pattern: Seq<char>,
    template: Option<Seq<char>>,
    header: Seq<char>,
) -> Seq<char> {
    if policy.no_replace {
        header
    } else {
        match template {
            Some(t) => regex_replaced(pattern, header, t),
            None => header,
        }
    }
}

/// A mathematical snapshot of the mutable run state.
#[verifier::ext_equal]
pub struct PipeModel {
    pub seen: Seq<Seq<char>>,
    pub taxa: Seq<Seq<char>>,
    pub dups: Seq<(Seq<char>, u64)>,
    pub stats: RunStats,
}

/// The stats with each counter raised by the given amount.
pub open spec fn bump(
    st: RunStats,
    total: int,
    emitted: int,
    duplicated: int,
    empty_seq: int,
    unmatched: int,
    skipped_not_first: int,
) -> RunStats {
    RunStats {
        total: (st.total + total) as u64,
        emitted: (st.emitted + emitted) as u64,
        duplicated: (st.duplicated + duplicated) as u64,
        empty_seq: (st.empty_seq + empty_seq) as u64,
        unmatched: (st.unmatched + unmatched) as u64,
        skipped_not_first: (st.skipped_not_first + skipped_not_first) as u64,
    }
}

/// What one step of the pipeline decides, at the specification level.
pub enum StepVerdict {
    Emit { header: Seq<char>, sq: Seq<u8> },
    Dup,
    SkipEmpty,
    SkipUnmatched,
    SkipNotFirst,
    Explain { lines: Seq<Seq<char>> },
    FatalUnmatched { header: Seq<char> },
    FatalNoTaxo { header: Seq<char> },
}

/// One step of the pipeline: how a record with this header and sequence
/// changes the run state, and how it is classified.
pub open spec fn step_model(
    policy: Policy,
    pattern: Seq<char>,
    template: Option<Seq<char>>,
    header: Seq<char>,
    sq: Seq<u8>,
    m: PipeModel,
) -> (PipeModel, StepVerdict) {
    let e: int = if sq.len() == 0 {
        1
    } else {
        0
    };
    if sq.len() == 0 && policy.ignore_empty {
        (
            PipeModel { stats: bump(m.stats, 1, 0, 0, 1, 0, 0), ..m },
            StepVerdict::SkipEmpty,
        )
    } else if !regex_matches(pattern, header) {
        if policy.ignore_unmatched {
            (
                PipeModel { stats: bump(m.stats, 1, 0, 0, e, 1, 0), ..m },
                StepVerdict::SkipUnmatched,
            )
        } else {
            (
                PipeModel { stats: bump(m.stats, 0, 0, 0, e, 1, 0), ..m },
                StepVerdict::FatalUnmatched { header },
            )
        }
    } else {
        match regex_taxo(pattern, header) {
            None => (
                PipeModel { stats: bump(m.stats, 0, 0, 0, e, 0, 0), ..m },
                StepVerdict::FatalNoTaxo { header },
            ),
            Some(taxo) => {
                if policy.first_seq_only && m.taxa.contains(taxo) {
                    (
                        PipeModel { stats: bump(m.stats, 1, 0, 0, e, 0, 1), ..m },
                        StepVerdict::SkipNotFirst,
                    )
                } else {
                    let taxa1 = if policy.first_seq_only {
                        m.taxa.push(taxo)
                    } else {
                        m.taxa
                    };
                    let nh = new_header_of(policy, pattern, template, header);
                    if policy.explain {
                        (
                            PipeModel { taxa: taxa1, stats: bump(m.stats, 0, 0, 0, e, 0, 0), ..m },
                            StepVerdict::Explain {
                                lines: explain_lines(
                                    header,
                                    regex_taxo_start(pattern, header),
                                    regex_taxo_end(pattern, header),
                                    regex_groups(pattern, header),
                                    nh,
                                ),
                            },
                        )
                    } else {
                        let key = dedup_key(taxo, sq);
                        if !m.seen.contains(key) {
                            (
                                PipeModel {
                                    seen: m.seen.push(key),
                                    taxa: taxa1,
                                    stats: bump(m.stats, 1, 1, 0, e, 0, 0),
                                    ..m
                                },
                                StepVerdict::Emit { header: nh, sq },
                            )
                        } else {
                            (
                                PipeModel {
                                    taxa: taxa1,
                                    dups: dup_bump(m.dups, taxo),
                                    stats: bump(m.stats, 1, 0, 1, e, 0, 0),
                                    ..m
                                },
                                StepVerdict::Dup,
                            )
                        }
                    }
                }
            },
        }
    }
}

/// The executable result agrees with the specification verdict.
pub open spec fn verdict_matches(r: Result<Outcome, PipelineError>, v: StepVerdict) -> bool {
    match v {
        StepVerdict::Emit { header, sq } => {
            &&& r matches Ok(Outcome::Emitted(rec))
            &&& rec.id@ == header
            &&& rec.desc is None
            &&& rec.seq@ == sq
        },
        StepVerdict::Dup => r matches Ok(Outcome::Duplicate),
        StepVerdict::SkipEmpty => r matches Ok(Outcome::SkippedEmpty),
        StepVerdict::SkipUnmatched => r matches Ok(Outcome::SkippedUnmatched),
        StepVerdict::SkipNotFirst => r matches Ok(Outcome::SkippedNotFirst),
        StepVerdict::Explain { lines } => {
            &&& r matches Ok(Outcome::Explained(ls))
            &&& ls.deep_view() == lines
        },
        StepVerdict::FatalUnmatched { header } => {
            &&& r matches Err(PipelineError::UnmatchedHeader { header: h })
            &&& h@ == header
        },
        StepVerdict::FatalNoTaxo { header } => {
            &&& r matches Err(PipelineError::MissingTaxoGroup { header: h })
            &&& h@ == header
        },
    }
}

/// The snapshot of the executable state and stats.
pub open spec fn model_of(state: DedupState, stats: RunStats) -> PipeModel {
    PipeModel { seen: state.seen(), taxa: state.taxa(), dups: state.dups(), stats }
}

/// What every reachable run state satisfies: no category outgrows the
/// total, and no per-taxon duplicate count outgrows the duplicate count.
pub open spec fn pipeline_inv(m: PipeModel) -> bool {
    &&& m.stats.emitted <= m.stats.total
    &&& m.stats.duplicated <= m.stats.total
    &&& m.stats.skipped_not_first <= m.stats.total
    &&& m.stats.empty_seq <= m.stats.total
    &&& m.stats.unmatched <= m.stats.total
    &&& forall|i: int| 0 <= i < m.dups.len() ==> (#[trigger] m.dups[i]).1 <= m.stats.duplicated
}

/// The counter balance: every record in `total` stands in exactly one
/// category - emitted, duplicated, or one of the enabled skip classes.
pub open spec fn stats_balanced(s: RunStats, policy: Policy) -> bool {
    s.total == s.emitted + s.duplicated + (if policy.ignore_empty {
        s.empty_seq as int
    } else {
        0
    }) + (if policy.ignore_unmatched {
        s.unmatched as int
    } else {
        0
    }) + s.skipped_not_first
}

/// Processes one record against the rule and the policy: reconstructs
/// the effective header, applies the skip policies in order, rewrites
/// the header, consults the deduplication state and updates the
/// counters, exactly as `step_model` says.
pub fn process_record(
    rule: &Rule,
    policy: &Policy,
    state: &mut DedupState,
    stats: &mut RunStats,
    rec: &Record,
) -> (r: Result<Outcome, PipelineError>)
    requires
        pipeline_inv(model_of(*old(state), *old(stats))),
        old(stats).total < u64::MAX,
    ensures
        ({
            let (m1, v) = step_model(
                *policy,
                rule.pattern(),
                rule.template_view(),
                rec.header_view(),
                rec.seq@,
                model_of(*old(state), *old(stats)),
            );
            &&& model_of(*final(state), *final(stats)) == m1
            &&& verdict_matches(r, v)
        }),
        ((r matches Ok(o) && !(o is Explained)) ==> pipeline_inv(
            model_of(*final(state), *final(stats)),
        )),
        ((r matches Ok(o) && !(o is Explained) && stats_balanced(*old(stats), *policy))
            ==> stats_balanced(*final(stats), *policy)),
{
    let ghost m0 = model_of(*old(state), *old(stats));
    let ghost p = rule.pattern();
    let ghost tv = rule.template_view();
    let header = rec.effective_header();
    if rec.seq.len() == 0 {
        stats.empty_seq = stats.empty_seq + 1;
        if policy.ignore_empty {
            stats.total = stats.total + 1;
            return Ok(Outcome::SkippedEmpty);
        }
    }
    let md = match rule.regex.captures(header.as_str()) {
        Some(md) => md,
        None => {
            stats.unmatched = stats.unmatched + 1;
            if policy.ignore_unmatched {
                stats.total = stats.total + 1;
                return Ok(Outcome::SkippedUnmatched);
            } else {
                return Err(PipelineError::UnmatchedHeader { header });
            }
        },
    };
    let taxo_cap = match md.taxo {
        Some(t) => t,
        None => {
            return Err(PipelineError::MissingTaxoGroup { header });
        },
    };
    let taxo = taxo_cap.text;
    if policy.first_seq_only {
        if state.taxa_contains(&taxo) {
            stats.total = stats.total + 1;
            stats.skipped_not_first = stats.skipped_not_first + 1;
            return Ok(Outcome::SkippedNotFirst);
        }
        state.mark_taxon(&taxo);
    }
    let new_header = if policy.no_replace {
        header.clone()
    } else {
        match &rule.template {
            Some(t) => rule.regex.replace(header.as_str(), t.as_str()),
            None => header.clone(),
        }
    };
    if policy.explain {
        let lines = build_explain(&header, taxo_cap.start, taxo_cap.end, &md.groups, &new_header);
        return Ok(Outcome::Explained(lines));
    }
    let lossy = utf8_lossy(&rec.seq);
    let key = taxo.clone().concat(lossy.as_str());
    if !state.seen_contains(&key) {
        state.mark_seen(&key);
        stats.total = stats.total + 1;
        stats.emitted = stats.emitted + 1;
        let out = Record { id: new_header, desc: None, seq: clone_bytes(&rec.seq) };
        Ok(Outcome::Emitted(out))
    } else {
        proof {
            lemma_dup_index_bounds(state.dups(), taxo@);
        }
        stats.total = stats.total + 1;
        stats.duplicated = stats.duplicated + 1;
        state.record_duplicate(&taxo);
        Ok(Outcome::Duplicate)
    }
}

/// The model of a freshly started run: nothing seen, all counters zero.
pub open spec fn init_model() -> PipeModel {
    PipeModel {
        seen: Seq::<Seq<char>>::empty(),
        taxa: Seq::<Seq<char>>::empty(),
        dups: Seq::<(Seq<char>, u64)>::empty(),
        stats: RunStats {
            total: 0u64,
            emitted: 0u64,
            duplicated: 0u64,
            empty_seq: 0u64,
            unmatched: 0u64,
            skipped_not_first: 0u64,
        },
    }
}

/// How a whole run ends.
pub enum RunVerdict {
    /// Every record was consumed.
    Completed,
    /// The run halted right after explaining one record.
    ExplainHalt { lines: Seq<Seq<char>> },
    /// The run aborted on an unmatched header.
    FatalUnmatched { header: Seq<char> },
    /// The run aborted on a missing `taxo` capture group.
    FatalNoTaxo { header: Seq<char> },
}

/// A whole run over the records, from state `m`: the final state, the
/// emitted records as (header, sequence) pairs in order, and how the
/// run ended.
pub open spec fn run_model(
    policy: Policy,
    pattern: Seq<char>,
    template: Option<Seq<char>>,
    records: Seq<Record>,
    m: PipeModel,
) -> (PipeModel, Seq<(Seq<char>, Seq<u8>)>, RunVerdict)
    decreases records.len(),
{
    if records.len() == 0 {
        (m, Seq::<(Seq<char>, Seq<u8>)>::empty(), RunVerdict::Completed)
    } else {
        let r0 = records[0];
        let (m1, v) = step_model(policy, pattern, template, r0.header_view(), r0.seq@, m);
        match v {
            StepVerdict::FatalUnmatched { header } => (
                m1,
                Seq::<(Seq<char>, Seq<u8>)>::empty(),
                RunVerdict::FatalUnmatched { header },
            ),
            StepVerdict::FatalNoTaxo { header } => (
                m1,
                Seq::<(Seq<char>, Seq<u8>)>::empty(),
                RunVerdict::FatalNoTaxo { header },
            ),
            StepVerdict::Explain { lines } => (
                m1,
                Seq::<(Seq<char>, Seq<u8>)>::empty(),
                RunVerdict::ExplainHalt { lines },
            ),
            StepVerdict::Emit { header, sq } => {
                let rest = run_model(policy, pattern, template, records.drop_first(), m1);
                (rest.0, seq![(header, sq)] + rest.1, rest.2)
            },
            _ => run_model(policy, pattern, template, records.drop_first(), m1),
        }
    }
}

/// What a completed run hands back.
pub struct RunOutput {
    /// The accepted, transformed records, in input order.
    pub emitted: Vec<Record>,
    /// The final counters.
    pub stats: RunStats,
    /// The final aggregation state, with the per-taxon duplicate counts.
    pub state: DedupState,
    /// The diagnostic report, when the run halted in explain mode.
    pub explained: Option<Vec<String>>,
}

/// The (header, sequence) views of the emitted records.
pub open spec fn emitted_views(v: Seq<Record>) -> Seq<(Seq<char>, Seq<u8>)> {
    Seq::new(v.len(), |i: int| (v[i].id@, v[i].seq@))
}

/// The whole contract of `run_pipeline`: the result is exactly what
/// `run_model` says of the inputs.
pub open spec fn run_matches(
    policy: Policy,
    pattern: Seq<char>,
    template: Option<Seq<char>>,
    records: Seq<Record>,
    r: Result<RunOutput, PipelineError>,
) -> bool {
    let (mf, em, rv) = run_model(policy, pattern, template, records, init_model());
    match r {
        Ok(out) => {
            &&& match rv {
                RunVerdict::Completed => out.explained is None,
                RunVerdict::ExplainHalt { lines } => {
                    &&& out.explained matches Some(ls)
                    &&& ls.deep_view() == lines
                },
                _ => false,
            }
            &&& model_of(out.state, out.stats) == mf
            &&& emitted_views(out.emitted@) == em
            &&& forall|i: int|
                0 <= i < out.emitted@.len() ==> (#[trigger] out.emitted@[i]).desc is None
        },
        Err(e) => match rv {
            RunVerdict::FatalUnmatched { header } => {
                &&& e matches PipelineError::UnmatchedHeader { header: h }
                &&& h@ == header
            },
            RunVerdict::FatalNoTaxo { header } => {
                &&& e matches PipelineError::MissingTaxoGroup { header: h }
                &&& h@ == header
            },
            _ => false,
        },
    }
}

/// Runs the whole pipeline over the records in order, from an empty
/// state, and returns the surviving records, the final counters and the
/// final aggregation state.  Since the result is a function of the
/// inputs alone, two runs on the same input give identical output.
pub fn run_pipeline(rule: &Rule, policy: &Policy, records: &Vec<Record>) -> (r: Result<
    RunOutput,
    PipelineError,
>)
    requires
        records@.len() < u64::MAX,
    ensures
        run_matches(*policy, rule.pattern(), rule.template_view(), records@, r),
        (r matches Ok(out) ==> (!policy.explain ==> stats_balanced(out.stats, *policy))),
{
    let ghost pol = *policy;
    let ghost p = rule.pattern();
    let ghost tv = rule.template_view();
    let ghost full = run_model(pol, p, tv, records@, init_model());
    let mut state = DedupState::new();
    let mut stats = RunStats::new();
    let mut emitted: Vec<Record> = Vec::new();
    proof {
        assert(model_of(state, stats) =~~= init_model());
        assert(records@.subrange(0, records@.len() as int) =~= records@);
        assert(emitted_views(emitted@) =~~= Seq::<(Seq<char>, Seq<u8>)>::empty());
    }
    let mut idx: usize = 0;
    while idx < records.len()
        invariant
            idx <= records@.len(),
            records@.len() < u64::MAX,
            pipeline_inv(model_of(state, stats)),
            stats_balanced(stats, pol),
            stats.total <= idx,
            pol == *policy,
            p == rule.pattern(),
            tv == rule.template_view(),
            full == run_model(pol, p, tv, records@, init_model()),
            ({
                let rest = run_model(
                    pol,
                    p,
                    tv,
                    records@.subrange(idx as int, records@.len() as int),
                    model_of(state, stats),
                );
                &&& rest.0 == full.0
                &&& rest.2 == full.2
                &&& emitted_views(emitted@) + rest.1 == full.1
            }),
            forall|i: int| 0 <= i < emitted@.len() ==> (#[trigger] emitted@[i]).desc is None,
        decreases records@.len() - idx,
    {
        let ghost suf = records@.subrange(idx as int, records@.len() as int);
        let ghost m_before = model_of(state, stats);
        proof {
            assert(suf[0] == records@[idx as int]);
            assert(suf.drop_first() =~= records@.subrange(idx + 1, records@.len() as int));
        }
        let rec = &records[idx];
        let res = process_record(rule, policy, &mut state, &mut stats, rec);
        let ghost sv = step_model(pol, p, tv, rec.header_view(), rec.seq@, m_before);
        match res {
            Ok(Outcome::Emitted(r2)) => {
                emitted.push(r2);
                proof {
                    let rest = run_model(pol, p, tv, suf.drop_first(), model_of(state, stats));
                    assert(emitted_views(emitted@) =~~= emitted_views(emitted@.drop_last()).push(
                        (r2.id@, r2.seq@),
                    ));
                    assert(emitted_views(emitted@) + rest.1 =~~= full.1);
                }
            },
            Ok(Outcome::Explained(lines)) => {
                proof {
                    assert(full.2 matches RunVerdict::ExplainHalt { lines: l }
                        && l == lines.deep_view());
                    assert(emitted_views(emitted@) =~~= full.1);
                }
                return Ok(
                    RunOutput { emitted, stats, state, explained: Some(lines) },
                );
            },
            Ok(_) => {
            },
            Err(e) => {
                return Err(e);
            },
        }
        idx = idx + 1;
    }
    proof {
        let suf = records@.subrange(idx as int, records@.len() as int);
        assert(suf =~= Seq::<Record>::empty());
        assert(emitted_views(emitted@) =~~= full.1);
    }
    Ok(RunOutput { emitted, stats, state, explained: None })
}

/// A copy of the sequence bytes.
fn clone_bytes(v: &Vec<u8>) -> (r: Vec<u8>)
    ensures
        r@ == v@,
{
    let mut r: Vec<u8> = Vec::new();
    let mut i: usize = 0;
    while i < v.len()
        invariant
            i <= v@.len(),
            r@ == v@.subrange(0, i as int),
        decreases v@.len() - i,
    {
        r.push(v[i]);
        proof {
            assert(r@ =~= v@.subrange(0, i + 1));
        }
        i = i + 1;
    }
    proof {
        assert(r@ =~= v@);
    }
    r
}

} // verus!
