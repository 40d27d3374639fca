use vstd::prelude::*;

verus! {

/// The run counters.  Every processed record raises `total` exactly
/// once; the other counters say how it was classified.  `empty_seq`
/// counts every record with an empty sequence, whether or not such
/// records are skipped.
#[derive(Clone, Copy, Debug, PartialEq, Eq, Structural)]
pub struct RunStats {
    pub total: u64,
    pub emitted: u64,
    pub duplicated: u64,
    pub empty_seq: u64,
    pub unmatched: u64,
    pub skipped_not_first: u64,
}

impl RunStats {
    pub fn new() -> (s: RunStats)
        ensures
            s == (RunStats {
                total: 0u64,
                emitted: 0u64,
                duplicated: 0u64,
                empty_seq: 0u64,
                unmatched: 0u64,
                skipped_not_first: 0u64,
            }),
    {
        RunStats {
            total: 0,
            emitted: 0,
            duplicated: 0,
            empty_seq: 0,
            unmatched: 0,
            skipped_not_first: 0,
        }
    }
}

} // verus!
