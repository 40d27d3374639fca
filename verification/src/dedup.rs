use vstd::prelude::*;

verus! {

/// One taxon together with how many duplicate records it has seen.
pub struct TaxonCount {
    pub taxo: String,
    pub count: u64,
}

/// The first position in `dups` holding `taxo`, or `-1` when absent.
pub open spec fn dup_index(dups: Seq<(Seq<char>, u64)>, taxo: Seq<char>) -> int
    decreases dups.len(),
{
    if dups.len() == 0 {
        -1
    } else if dups[0].0 == taxo {
        0
    } else {
        let r = dup_index(dups.drop_first(), taxo);
        if r == -1 {
            -1
        } else {
            r + 1
        }
    }
}

/// The duplicate count recorded for `taxo`, zero when none is recorded.
pub open spec fn dup_count_of(dups: Seq<(Seq<char>, u64)>, taxo: Seq<char>) -> u64 {
    let i = dup_index(dups, taxo);
    if i == -1 {
        0
    } else {
        dups[i].1
    }
}

pub proof fn lemma_dup_index_bounds(dups: Seq<(Seq<char>, u64)>, taxo: Seq<char>)
    ensures
        dup_index(dups, taxo) == -1 || (0 <= dup_index(dups, taxo) < dups.len()
            && dups[dup_index(dups, taxo)].0 == taxo),
    decreases dups.len(),
{
    if dups.len() != 0 && dups[0].0 != taxo {
        lemma_dup_index_bounds(dups.drop_first(), taxo);
    }
}

/// A forward scan that found `taxo` first at `i` agrees with `dup_index`.
pub proof fn lemma_dup_index_found(dups: Seq<(Seq<char>, u64)>, taxo: Seq<char>, i: int)
    requires
        0 <= i < dups.len(),
        forall|j: int| 0 <= j < i ==> (#[trigger] dups[j]).0 != taxo,
        dups[i].0 == taxo,
    ensures
        dup_index(dups, taxo) == i,
    decreases i,
{
    if i > 0 {
        lemma_dup_index_found(dups.drop_first(), taxo, i - 1);
    }
}

/// A forward scan that never found `taxo` agrees with `dup_index`.
pub proof fn lemma_dup_index_absent(dups: Seq<(Seq<char>, u64)>, taxo: Seq<char>)
    requires
        forall|j: int| 0 <= j < dups.len() ==> (#[trigger] dups[j]).0 != taxo,
    ensures
        dup_index(dups, taxo) == -1,
    decreases dups.len(),
{
    if dups.len() != 0 {
        lemma_dup_index_absent(dups.drop_first(), taxo);
    }
}

/// When `dup_index` finds nothing, no entry holds the taxon.
pub proof fn lemma_dup_index_none(dups: Seq<(Seq<char>, u64)>, taxo: Seq<char>)
    requires
        dup_index(dups, taxo) == -1,
    ensures
        forall|j: int| 0 <= j < dups.len() ==> (#[trigger] dups[j]).0 != taxo,
    decreases dups.len(),
{
    if dups.len() != 0 {
        assert(dups[0].0 != taxo);
        lemma_dup_index_bounds(dups.drop_first(), taxo);
        lemma_dup_index_none(dups.drop_first(), taxo);
        assert(forall|j: int|
            1 <= j < dups.len() ==> (#[trigger] dups[j]).0 == dups.drop_first()[j - 1].0);
    }
}

/// Entries before the found index do not hold the taxon.
pub proof fn lemma_dup_index_prefix(dups: Seq<(Seq<char>, u64)>, taxo: Seq<char>)
    requires
        dup_index(dups, taxo) >= 0,
    ensures
        forall|j: int| 0 <= j < dup_index(dups, taxo) ==> (#[trigger] dups[j]).0 != taxo,
    decreases dups.len(),
{
    if dups.len() != 0 && dups[0].0 != taxo {
        lemma_dup_index_bounds(dups.drop_first(), taxo);
        lemma_dup_index_prefix(dups.drop_first(), taxo);
        let r = dup_index(dups.drop_first(), taxo);
        assert(dup_index(dups, taxo) == r + 1);
        assert(forall|j: int|
            1 <= j < dups.len() ==> (#[trigger] dups[j]).0 == dups.drop_first()[j - 1].0);
        assert(forall|j: int| 1 <= j < r + 1 ==> (#[trigger] dups[j]).0 != taxo);
    }
}

/// Bumping the count for a taxon raises exactly its count by one.
pub proof fn lemma_dup_bump_count(dups: Seq<(Seq<char>, u64)>, taxo: Seq<char>)
    requires
        dup_count_of(dups, taxo) < u64::MAX,
    ensures
        dup_count_of(dup_bump(dups, taxo), taxo) == dup_count_of(dups, taxo) + 1,
{
    lemma_dup_index_bounds(dups, taxo);
    let i = dup_index(dups, taxo);
    if i == -1 {
        lemma_dup_index_none(dups, taxo);
        let d1 = dups.push((taxo, 1u64));
        assert(forall|j: int| 0 <= j < dups.len() ==> (#[trigger] d1[j]).0 != taxo);
        lemma_dup_index_found(d1, taxo, dups.len() as int);
    } else {
        lemma_dup_index_prefix(dups, taxo);
        let d1 = dups.update(i, (taxo, (dups[i].1 + 1) as u64));
        assert(forall|j: int| 0 <= j < i ==> (#[trigger] d1[j]).0 != taxo);
        lemma_dup_index_found(d1, taxo, i);
    }
}

/// The mutable per-run aggregation state: the deduplication keys already
/// seen, the taxa already seen (for the first-sequence-only policy), and
/// the per-taxon duplicate counts in first-seen order.
pub struct DedupState {
    seen_keys: Vec<String>,
    taxa_seen: Vec<String>,
    dup_counts: Vec<TaxonCount>,
}

impl DedupState {
    /// The deduplication keys seen so far, in insertion order.
    pub closed spec fn seen(&self) -> Seq<Seq<char>> {
        self.seen_keys.deep_view()
    }

    /// The taxa seen so far, in insertion order.
    pub closed spec fn taxa(&self) -> Seq<Seq<char>> {
        self.taxa_seen.deep_view()
    }

    /// The per-taxon duplicate counts, in first-seen order.
    pub closed spec fn dups(&self) -> Seq<(Seq<char>, u64)> {
        Seq::new(self.dup_counts@.len(), |i: int| (self.dup_counts@[i].taxo@, self.dup_counts@[i].count))
    }

    pub fn new() -> (s: DedupState)
        ensures
            s.seen() == Seq::<Seq<char>>::empty(),
            s.taxa() == Seq::<Seq<char>>::empty(),
            s.dups() == Seq::<(Seq<char>, u64)>::empty(),
    {
        let s = DedupState { seen_keys: Vec::new(), taxa_seen: Vec::new(), dup_counts: Vec::new() };
        proof {
            assert(s.seen() =~~= Seq::<Seq<char>>::empty());
            assert(s.taxa() =~~= Seq::<Seq<char>>::empty());
            assert(s.dups() =~= Seq::<(Seq<char>, u64)>::empty());
        }
        s
    }

    /// Whether this deduplication key was seen before.
    pub fn seen_contains(&self, key: &String) -> (b: bool)
        ensures
            b == self.seen().contains(key@),
    {
        contains_string(&self.seen_keys, key)
    }

    /// Records a deduplication key as seen.
    pub fn mark_seen(&mut self, key: &String)
        ensures
            final(self).seen() == old(self).seen().push(key@),
            final(self).taxa() == old(self).taxa(),
            final(self).dups() == old(self).dups(),
    {
        self.seen_keys.push(key.clone());
        proof {
            assert(self.seen() =~~= old(self).seen().push(key@));
            assert(self.taxa() =~~= old(self).taxa());
            assert(self.dups() =~= old(self).dups());
        }
    }

    /// Whether this taxon was seen before.
    pub fn taxa_contains(&self, taxo: &String) -> (b: bool)
        ensures
            b == self.taxa().contains(taxo@),
    {
        contains_string(&self.taxa_seen, taxo)
    }

    /// Records a taxon as seen.
    pub fn mark_taxon(&mut self, taxo: &String)
        ensures
            final(self).taxa() == old(self).taxa().push(taxo@),
            final(self).seen() == old(self).seen(),
            final(self).dups() == old(self).dups(),
    {
        self.taxa_seen.push(taxo.clone());
        proof {
            assert(self.taxa() =~~= old(self).taxa().push(taxo@));
            assert(self.seen() =~~= old(self).seen());
            assert(self.dups() =~= old(self).dups());
        }
    }

    /// Counts one more duplicate for this taxon: bumps its entry, or
    /// starts it at one.
    pub fn record_duplicate(&mut self, taxo: &String)
        requires
            dup_count_of(old(self).dups(), taxo@) < u64::MAX,
        ensures
            final(self).seen() == old(self).seen(),
            final(self).taxa() == old(self).taxa(),
            final(self).dups() == dup_bump(old(self).dups(), taxo@),
            dup_count_of(final(self).dups(), taxo@) == dup_count_of(old(self).dups(), taxo@) + 1,
    {
        let ghost dups0 = self.dups();
        let n = self.dup_counts.len();
        let mut i: usize = 0;
        while i < n
            invariant
                i <= n,
                n == self.dup_counts@.len(),
                *self == *old(self),
                dups0 == self.dups(),
                n == dups0.len(),
                dup_count_of(dups0, taxo@) < u64::MAX,
                forall|j: int| 0 <= j < i ==> (#[trigger] self.dups()[j]).0 != taxo@,
            decreases n - i,
        {
            if string_eq(&self.dup_counts[i].taxo, taxo) {
                proof {
                    assert(dups0[i as int].0 == taxo@);
                    lemma_dup_index_found(dups0, taxo@, i as int);
                    assert(dups0[i as int].1 < u64::MAX);
                }
                let c = self.dup_counts[i].count;
                self.dup_counts[i] = TaxonCount { taxo: taxo.clone(), count: c + 1 };
                proof {
                    assert(self.seen() =~~= old(self).seen());
                    assert(self.taxa() =~~= old(self).taxa());
                    assert(self.dups() =~= dups0.update(
                        i as int,
                        (taxo@, (dups0[i as int].1 + 1) as u64),
                    ));
                    assert(self.dups() == dup_bump(dups0, taxo@));
                    let d1 = self.dups();
                    assert(forall|j: int| 0 <= j < i ==> (#[trigger] d1[j]).0 != taxo@);
                    lemma_dup_index_found(d1, taxo@, i as int);
                }
                return ;
            }
            i = i + 1;
        }
        proof {
            lemma_dup_index_absent(dups0, taxo@);
        }
        self.dup_counts.push(TaxonCount { taxo: taxo.clone(), count: 1 });
        proof {
            assert(self.seen() =~~= old(self).seen());
            assert(self.taxa() =~~= old(self).taxa());
            assert(self.dups() =~= dups0.push((taxo@, 1u64)));
            assert(self.dups() == dup_bump(dups0, taxo@));
            let d1 = self.dups();
            assert(forall|j: int| 0 <= j < dups0.len() ==> (#[trigger] d1[j]).0 != taxo@);
            lemma_dup_index_found(d1, taxo@, dups0.len() as int);
        }
    }

    /// How many taxa have at least one duplicate.
    pub fn dup_taxa_count(&self) -> (n: usize)
        ensures
            n == self.dups().len(),
    {
        self.dup_counts.len()
    }

    /// The taxon and count at one position of the duplicate listing.
    pub fn dup_entry(&self, i: usize) -> (r: &TaxonCount)
        requires
            i < self.dups().len(),
        ensures
            (r.taxo@, r.count) == self.dups()[i as int],
    {
        &self.dup_counts[i]
    }
}

/// `dups` with the count for `taxo` one higher: the first entry for it
/// bumped, or a fresh entry with count one appended.
pub open spec fn dup_bump(dups: Seq<(Seq<char>, u64)>, taxo: Seq<char>) -> Seq<(Seq<char>, u64)> {
    let i = dup_index(dups, taxo);
    if i == -1 {
        dups.push((taxo, 1u64))
    } else {
        dups.update(i, (taxo, (dups[i].1 + 1) as u64))
    }
}

/// Whether the vector holds a string with this content.
fn contains_string(v: &Vec<String>, x: &String) -> (b: bool)
    ensures
        b == v.deep_view().contains(x@),
{
    let mut i: usize = 0;
    while i < v.len()
        invariant
            i <= v@.len(),
            forall|j: int| 0 <= j < i ==> v.deep_view()[j] != x@,
        decreases v@.len() - i,
    {
        if string_eq(&v[i], x) {
            proof {
                assert(v.deep_view()[i as int] == x@);
            }
            return true;
        }
        i = i + 1;
    }
    proof {
        assert(forall|j: int| 0 <= j < v.deep_view().len() ==> v.deep_view()[j] != x@);
    }
    false
}

/// String equality by contents.
fn string_eq(a: &String, b: &String) -> (r: bool)
    ensures
        r == (a@ == b@),
{
    a.eq(b)
}

} // verus!
