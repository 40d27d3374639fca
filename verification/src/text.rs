use vstd::prelude::*;
use vstd::string::StrSliceExecFns;

verus! {

/// The fragments of `s` between occurrences of `sep`, in order.
/// An empty sequence splits into one empty fragment, and a separator at
/// either end or next to another separator contributes an empty fragment,
/// exactly as `str::split` behaves on a single-character separator.
pub open spec fn split_chars(s: Seq<char>, sep: char) -> Seq<Seq<char>>
    decreases s.len(),
{
    if s.len() == 0 {
        seq![Seq::<char>::empty()]
    } else if s[0] == sep {
        seq![Seq::<char>::empty()] + split_chars(s.drop_first(), sep)
    } else {
        let rest = split_chars(s.drop_first(), sep);
        rest.update(0, seq![s[0]] + rest[0])
    }
}

pub proof fn lemma_split_chars_nonempty(s: Seq<char>, sep: char)
    ensures
        split_chars(s, sep).len() >= 1,
    decreases s.len(),
{
    if s.len() != 0 {
        lemma_split_chars_nonempty(s.drop_first(), sep);
    }
}

/// The characters of `s`, as a vector.
pub fn chars_of(s: &str) -> (v: Vec<char>)
    ensures
        v@ == s@,
{
    let n = s.unicode_len();
    let mut v: Vec<char> = Vec::new();
    let mut i: usize = 0;
    while i < n
        invariant
            i <= n,
            n == s@.len(),
            v@ == s@.subrange(0, i as int),
        decreases n - i,
    {
        v.push(s.get_char(i));
        proof {
            assert(v@ =~= s@.subrange(0, i + 1));
        }
        i = i + 1;
    }
    proof {
        assert(v@ =~= s@);
    }
    v
}

/// Relies on `String`'s `FromIterator` implementation over `char`:
/// collecting characters builds the string of exactly those characters,
/// in order.
#[verifier::external_body]
pub(crate) fn string_from_chars(v: &Vec<char>) -> (s: String)
    ensures
        s@ == v@,
{
    v.iter().collect()
}

/// The characters of `v` from `lo` (inclusive) to `hi` (exclusive).
pub fn subvec(v: &Vec<char>, lo: usize, hi: usize) -> (r: Vec<char>)
    requires
        lo <= hi <= v@.len(),
    ensures
        r@ == v@.subrange(lo as int, hi as int),
{
    let mut r: Vec<char> = Vec::new();
    let mut i: usize = lo;
    while i < hi
        invariant
            lo <= i <= hi <= v@.len(),
            r@ == v@.subrange(lo as int, i as int),
        decreases hi - i,
    {
        r.push(v[i]);
        proof {
            assert(r@ =~= v@.subrange(lo as int, i + 1));
        }
        i = i + 1;
    }
    r
}

/// Splits `s` on `sep`, yielding the fragments of `split_chars`.
pub fn split_chars_exec(s: &Vec<char>, sep: char) -> (parts: Vec<Vec<char>>)
    ensures
        parts.deep_view() == split_chars(s@, sep),
{
    let mut parts: Vec<Vec<char>> = Vec::new();
    parts.push(Vec::new());
    let mut i: usize = s.len();
    proof {
        assert(s@.subrange(i as int, s@.len() as int) =~= Seq::<char>::empty());
        assert(parts.deep_view() =~~= split_chars(Seq::<char>::empty(), sep));
    }
    while i > 0
        invariant
            i <= s@.len(),
            parts.deep_view() == split_chars(s@.subrange(i as int, s@.len() as int), sep),
        decreases i,
    {
        i = i - 1;
        let ghost cur = s@.subrange(i as int, s@.len() as int);
        let ghost tail = s@.subrange(i + 1, s@.len() as int);
        proof {
            assert(cur[0] == s@[i as int]);
            assert(cur.drop_first() =~= tail);
            lemma_split_chars_nonempty(tail, sep);
        }
        if s[i] == sep {
            parts.insert(0, Vec::new());
            proof {
                assert(parts.deep_view() =~~= split_chars(cur, sep));
            }
        } else {
            let mut first = parts.remove(0);
            first.insert(0, s[i]);
            parts.insert(0, first);
            proof {
                let rest = split_chars(tail, sep);
                assert(parts.deep_view() =~~= rest.update(0, seq![s@[i as int]] + rest[0]));
                assert(parts.deep_view() =~~= split_chars(cur, sep));
            }
        }
    }
    proof {
        assert(s@.subrange(0, s@.len() as int) =~= s@);
    }
    parts
}

} // verus!
