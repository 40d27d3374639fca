use vstd::prelude::*;
use crate::dedup::{dup_count_of, lemma_dup_bump_count};
use crate::matching::regex_taxo;
use crate::pipeline::{
    dedup_key, emitted_views, model_of, run_matches, step_model, PipeModel, Policy, RunOutput,
    PipelineError, StepVerdict,
};
use crate::record::Record;

verus! {

/// Running the pipeline twice on the same records and the same rule
/// gives the same verdict, the same emitted records and the same
/// statistics and duplicate counts: the run is a function of its
/// inputs, with no dependence on iteration order of any container.
pub proof fn lemma_run_deterministic(
    policy: Policy,
    pattern: Seq<char>,
    template: Option<Seq<char>>,
    records: Seq<Record>,
    r1: Result<RunOutput, PipelineError>,
    r2: Result<RunOutput, PipelineError>,
)
    requires
        run_matches(policy, pattern, template, records, r1),
        run_matches(policy, pattern, template, records, r2),
    ensures
        r1 is Ok <==> r2 is Ok,
        (r1 matches Ok(o1) ==> (r2 matches Ok(o2) ==> {
            &&& o1.stats == o2.stats
            &&& emitted_views(o1.emitted@) == emitted_views(o2.emitted@)
            &&& model_of(o1.state, o1.stats) == model_of(o2.state, o2.stats)
            &&& (o1.explained is Some <==> o2.explained is Some)
        })),
{
}

/// Two records with the same taxo key and the same sequence bytes, the
/// key not yet seen: the first is emitted, the second is counted as a
/// duplicate, and its taxon carries a positive duplicate count.
pub proof fn lemma_dedup_pair(
    policy: Policy,
    pattern: Seq<char>,
    template: Option<Seq<char>>,
    h1: Seq<char>,
    h2: Seq<char>,
    sq: Seq<u8>,
    taxo: Seq<char>,
    m0: PipeModel,
)
    requires
        !policy.explain,
        !policy.first_seq_only,
        sq.len() > 0 || !policy.ignore_empty,
        crate::matching::regex_matches(pattern, h1),
        crate::matching::regex_matches(pattern, h2),
        regex_taxo(pattern, h1) == Some(taxo),
        regex_taxo(pattern, h2) == Some(taxo),
        !m0.seen.contains(dedup_key(taxo, sq)),
        dup_count_of(m0.dups, taxo) < u64::MAX,
        m0.stats.duplicated < u64::MAX,
    ensures
        ({
            let (m1, v1) = step_model(policy, pattern, template, h1, sq, m0);
            let (m2, v2) = step_model(policy, pattern, template, h2, sq, m1);
            &&& v1 is Emit
            &&& v2 is Dup
            &&& dup_count_of(m2.dups, taxo) >= 1
            &&& m2.stats.duplicated == m1.stats.duplicated + 1
            &&& m2.stats.emitted == m1.stats.emitted
        }),
{
    let key = dedup_key(taxo, sq);
    let (m1, v1) = step_model(policy, pattern, template, h1, sq, m0);
    assert(m1.seen == m0.seen.push(key));
    assert(m1.seen[m0.seen.len() as int] == key);
    assert(m1.seen.contains(key));
    assert(m1.dups == m0.dups);
    let (m2, v2) = step_model(policy, pattern, template, h2, sq, m1);
    lemma_dup_bump_count(m1.dups, taxo);
}

/// A record with an empty sequence: when such records are ignored it is
/// skipped and only counted; when they are not, it runs through
/// deduplication like any other record, the empty sequence standing in
/// its key, and the empty-sequence counter still rises.
pub proof fn lemma_empty_sequence_policy(
    policy: Policy,
    pattern: Seq<char>,
    template: Option<Seq<char>>,
    header: Seq<char>,
    taxo: Seq<char>,
    m0: PipeModel,
)
    requires
        !policy.explain,
        !policy.first_seq_only,
        crate::matching::regex_matches(pattern, header),
        regex_taxo(pattern, header) == Some(taxo),
        m0.stats.total < u64::MAX,
        m0.stats.empty_seq < u64::MAX,
    ensures
        ({
            let (m1, v) = step_model(policy, pattern, template, header, seq![], m0);
            &&& m1.stats.empty_seq == m0.stats.empty_seq + 1
            &&& (policy.ignore_empty ==> {
                &&& v is SkipEmpty
                &&& m1.seen == m0.seen
                &&& m1.taxa == m0.taxa
                &&& m1.dups == m0.dups
                &&& m1.stats.total == m0.stats.total + 1
                &&& m1.stats.emitted == m0.stats.emitted
                &&& m1.stats.duplicated == m0.stats.duplicated
                &&& m1.stats.unmatched == m0.stats.unmatched
                &&& m1.stats.skipped_not_first == m0.stats.skipped_not_first
            })
            &&& (!policy.ignore_empty ==> {
                &&& (v is Emit <==> !m0.seen.contains(dedup_key(taxo, seq![])))
                &&& (v is Dup <==> m0.seen.contains(dedup_key(taxo, seq![])))
                &&& (v is Emit ==> m1.seen == m0.seen.push(dedup_key(taxo, seq![])))
            })
        }),
{
}

/// A record whose header the pattern does not match: when unmatched
/// records are ignored it is skipped, counted, and the run goes on;
/// otherwise the step is fatal and the run aborts on this record.
pub proof fn lemma_unmatched_policy(
    policy: Policy,
    pattern: Seq<char>,
    template: Option<Seq<char>>,
    header: Seq<char>,
    sq: Seq<u8>,
    m0: PipeModel,
)
    requires
        sq.len() > 0,
        !crate::matching::regex_matches(pattern, header),
        m0.stats.total < u64::MAX,
        m0.stats.unmatched < u64::MAX,
    ensures
        ({
            let (m1, v) = step_model(policy, pattern, template, header, sq, m0);
            &&& m1.stats.unmatched == m0.stats.unmatched + 1
            &&& m1.seen == m0.seen
            &&& m1.taxa == m0.taxa
            &&& m1.dups == m0.dups
            &&& (policy.ignore_unmatched ==> v is SkipUnmatched && m1.stats.total == m0.stats.total
                + 1)
            &&& (!policy.ignore_unmatched ==> (v matches StepVerdict::FatalUnmatched {
                header: h,
            } && h == header) && m1.stats.total == m0.stats.total)
        }),
{
}

/// With the first-sequence-only policy, of records whose taxo keys run
/// A, A, B, A (with A and B distinct) only the first A record and the B
/// record reach deduplication; the later A records are skipped before
/// it.  The first record, over a fresh key, is emitted; the B record is
/// emitted or counted as a duplicate, as its key decides.
pub proof fn lemma_first_per_taxon(
    policy: Policy,
    pattern: Seq<char>,
    template: Option<Seq<char>>,
    h1: Seq<char>,
    h2: Seq<char>,
    h3: Seq<char>,
    h4: Seq<char>,
    sq1: Seq<u8>,
    sq2: Seq<u8>,
    sq3: Seq<u8>,
    sq4: Seq<u8>,
    ta: Seq<char>,
    tb: Seq<char>,
    m0: PipeModel,
)
    requires
        policy.first_seq_only,
        !policy.explain,
        ta != tb,
        sq1.len() > 0 || !policy.ignore_empty,
        sq2.len() > 0 || !policy.ignore_empty,
        sq3.len() > 0 || !policy.ignore_empty,
        sq4.len() > 0 || !policy.ignore_empty,
        crate::matching::regex_matches(pattern, h1),
        crate::matching::regex_matches(pattern, h2),
        crate::matching::regex_matches(pattern, h3),
        crate::matching::regex_matches(pattern, h4),
        regex_taxo(pattern, h1) == Some(ta),
        regex_taxo(pattern, h2) == Some(ta),
        regex_taxo(pattern, h3) == Some(tb),
        regex_taxo(pattern, h4) == Some(ta),
        !m0.taxa.contains(ta),
        !m0.taxa.contains(tb),
        !m0.seen.contains(dedup_key(ta, sq1)),
    ensures
        ({
            let (m1, v1) = step_model(policy, pattern, template, h1, sq1, m0);
            let (m2, v2) = step_model(policy, pattern, template, h2, sq2, m1);
            let (m3, v3) = step_model(policy, pattern, template, h3, sq3, m2);
            let (m4, v4) = step_model(policy, pattern, template, h4, sq4, m3);
            &&& v1 is Emit
            &&& v2 is SkipNotFirst
            &&& (v3 is Emit || v3 is Dup)
            &&& v4 is SkipNotFirst
            &&& m2.seen == m1.seen
            &&& m4.seen == m3.seen
        }),
{
    let (m1, v1) = step_model(policy, pattern, template, h1, sq1, m0);
    assert(m1.taxa == m0.taxa.push(ta));
    assert(m1.taxa[m0.taxa.len() as int] == ta);
    assert(m1.taxa.contains(ta));
    let (m2, v2) = step_model(policy, pattern, template, h2, sq2, m1);
    assert(m2.taxa == m1.taxa);
    assert(!m1.taxa.contains(tb)) by {
        if m1.taxa.contains(tb) {
            let j = choose|j: int| 0 <= j < m1.taxa.len() && m1.taxa[j] == tb;
            if j < m0.taxa.len() {
                assert(m0.taxa[j] == tb);
                assert(m0.taxa.contains(tb));
            }
        }
    }
    let (m3, v3) = step_model(policy, pattern, template, h3, sq3, m2);
    assert(m3.taxa == m2.taxa.push(tb) || m3.taxa == m2.taxa);
    assert(m3.taxa.contains(ta)) by {
        if m3.taxa == m2.taxa.push(tb) {
            let j = choose|j: int| 0 <= j < m2.taxa.len() && m2.taxa[j] == ta;
            assert(m3.taxa[j] == ta);
        }
    }
    let (m4, v4) = step_model(policy, pattern, template, h4, sq4, m3);
}

} // verus!
