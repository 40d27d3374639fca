use vstd::prelude::*;
use vstd::seq_lib::*;
use crate::text::{chars_of, string_from_chars, subvec};

verus! {

/// `n` spaces.
pub open spec fn spaces(n: nat) -> Seq<char> {
    Seq::new(n, |i: int| ' ')
}

/// `n` caret characters.
pub open spec fn carets(n: nat) -> Seq<char> {
    Seq::new(n, |i: int| '^')
}

/// The marker under the header: spaces up to the capture's start, then
/// one caret per captured character.
pub open spec fn marker(start: nat, end: nat) -> Seq<char> {
    spaces(start) + carets(if end >= start {
        (end - start) as nat
    } else {
        0
    })
}

/// The predicate picking the visible characters of a marker line.
pub open spec fn nonspace_pred() -> spec_fn(char) -> bool {
    |c: char| c != ' '
}

/// How many characters of the line are not spaces.
pub open spec fn nonspace_count(s: Seq<char>) -> nat {
    s.filter(nonspace_pred()).len()
}

proof fn lemma_filter_all_spaces(s: Seq<char>)
    requires
        forall|i: int| 0 <= i < s.len() ==> s[i] == ' ',
    ensures
        s.filter(nonspace_pred()).len() == 0,
    decreases s.len(),
{
    reveal(Seq::filter);
    if s.len() > 0 {
        lemma_filter_all_spaces(s.drop_last());
    }
}

proof fn lemma_filter_no_spaces(s: Seq<char>)
    requires
        forall|i: int| 0 <= i < s.len() ==> s[i] != ' ',
    ensures
        s.filter(nonspace_pred()).len() == s.len(),
    decreases s.len(),
{
    reveal(Seq::filter);
    if s.len() > 0 {
        lemma_filter_no_spaces(s.drop_last());
    }
}

/// The marker for a capture span inside the header is exactly as long
/// as the span's end offset, and its non-space characters number
/// exactly the span's length.
pub proof fn lemma_marker_span(start: nat, end: nat)
    requires
        start <= end,
    ensures
        marker(start, end).len() == end,
        nonspace_count(marker(start, end)) == end - start,
        forall|i: int|
            0 <= i < end ==> (#[trigger] marker(start, end)[i]) == (if i < start {
                ' '
            } else {
                '^'
            }),
{
    let sp = spaces(start);
    let ca = carets((end - start) as nat);
    Seq::filter_distributes_over_add(sp, ca, nonspace_pred());
    lemma_filter_all_spaces(sp);
    lemma_filter_no_spaces(ca);
}

/// The digit character for one decimal digit.
pub open spec fn digit_char(d: nat) -> char {
    if d == 0 {
        '0'
    } else if d == 1 {
        '1'
    } else if d == 2 {
        '2'
    } else if d == 3 {
        '3'
    } else if d == 4 {
        '4'
    } else if d == 5 {
        '5'
    } else if d == 6 {
        '6'
    } else if d == 7 {
        '7'
    } else if d == 8 {
        '8'
    } else {
        '9'
    }
}

/// The decimal digits of `n`, most significant first.
pub open spec fn dec_digits(n: nat) -> Seq<char>
    decreases n,
{
    if n < 10 {
        seq![digit_char(n)]
    } else {
        dec_digits(n / 10) + seq![digit_char(n % 10)]
    }
}

/// The number right-aligned in the four-column range gutter.
pub open spec fn gutter_num(n: nat) -> Seq<char> {
    let d = dec_digits(n);
    if d.len() >= 4 {
        d
    } else {
        spaces((4 - d.len()) as nat) + d
    }
}

/// One header segment line: the segment's character range in two
/// four-column fields, a bar, then the segment itself.
pub open spec fn segment_line(h: Seq<char>, lo: int, hi: int) -> Seq<char> {
    gutter_num(lo as nat) + seq!['-'] + gutter_num(hi as nat) + seq!['|'] + h.subrange(lo, hi)
}

/// The heading naming the capture span's character bounds.
pub open spec fn heading_line(start: nat, end: nat) -> Seq<char> {
    "Original header and taxo capture group (chars "@ + dec_digits(start) + " to "@ + dec_digits(
        end,
    ) + "):"@
}

/// The header and marker, cut into pairs of 80-character lines: one
/// header segment behind its range gutter, then the part of the marker
/// that falls under it, shifted past the ten gutter columns (an empty
/// line once the marker is exhausted).
pub open spec fn chunk_pairs(h: Seq<char>, mk: Seq<char>, i: int, remaining: int) -> Seq<Seq<char>>
    decreases remaining,
{
    if remaining <= 0 {
        Seq::<Seq<char>>::empty()
    } else {
        let lo = 80 * i;
        let hhi = if h.len() < lo + 80 {
            h.len() as int
        } else {
            lo + 80
        };
        let line = segment_line(h, lo, hhi);
        let mline = if lo < mk.len() {
            let mhi = if mk.len() < lo + 80 {
                mk.len() as int
            } else {
                lo + 80
            };
            spaces(10) + mk.subrange(lo, mhi)
        } else {
            Seq::<char>::empty()
        };
        seq![line, mline] + chunk_pairs(h, mk, i + 1, remaining - 1)
    }
}

/// One listing line per capture group that took part in the match
/// (group 0, the whole match, left out), numbered in listing order,
/// the captured text in quotes.
pub open spec fn group_lines(groups: Seq<Option<Seq<char>>>, j: int, k: nat) -> Seq<Seq<char>>
    decreases groups.len() - j,
{
    if j < 0 || j >= groups.len() {
        Seq::<Seq<char>>::empty()
    } else {
        match groups[j] {
            Some(t) => seq![seq!['|'] + dec_digits(k) + seq![':', ' ', '"'] + t + seq!['"']]
                + group_lines(groups, j + 1, k + 1),
            None => group_lines(groups, j + 1, k),
        }
    }
}

/// The capture span clamped into the header: offsets past the end of
/// the header are drawn back, and the start never passes the end.
pub open spec fn clamped_end(h: Seq<char>, end: int) -> nat {
    if end < 0 {
        0
    } else if end > h.len() {
        h.len()
    } else {
        end as nat
    }
}

pub open spec fn clamped_start(h: Seq<char>, start: int, end: int) -> nat {
    let e = clamped_end(h, end);
    if start < 0 {
        0
    } else if start > e {
        e
    } else {
        start as nat
    }
}

/// The whole diagnostic report: the heading with the span bounds, the
/// header in 80-character segments each over the marker for the `taxo`
/// capture span, the numbered listing of the captured groups, and the
/// new header, with their section headings and blank separators.
pub open spec fn explain_lines(
    h: Seq<char>,
    start: int,
    end: int,
    groups: Seq<Option<Seq<char>>>,
    new_header: Seq<char>,
) -> Seq<Seq<char>> {
    let e = clamped_end(h, end);
    let s = clamped_start(h, start, end);
    let mk = marker(s, e);
    seq![heading_line(if start >= 0 { start as nat } else { 0 }, if end >= 0 { end as nat } else { 0 })]
        + chunk_pairs(h, mk, 0, h.len() as int / 80 + 1) + seq![
        Seq::<char>::empty(),
        "List of captured groups, enclosed with \":"@,
    ] + group_lines(groups, 1, 1) + seq![Seq::<char>::empty(), "New header:"@, new_header]
}

/// The character for one decimal digit.
fn digit_of(d: usize) -> (c: char)
    requires
        d < 10,
    ensures
        c == digit_char(d as nat),
{
    if d == 0 {
        '0'
    } else if d == 1 {
        '1'
    } else if d == 2 {
        '2'
    } else if d == 3 {
        '3'
    } else if d == 4 {
        '4'
    } else if d == 5 {
        '5'
    } else if d == 6 {
        '6'
    } else if d == 7 {
        '7'
    } else if d == 8 {
        '8'
    } else {
        '9'
    }
}

/// The decimal digits of `n`, most significant first.
fn dec_string(n: usize) -> (r: Vec<char>)
    ensures
        r@ == dec_digits(n as nat),
    decreases n,
{
    let c = digit_of(n % 10);
    if n < 10 {
        let mut v: Vec<char> = Vec::new();
        v.push(c);
        proof {
            assert(v@ =~= dec_digits(n as nat));
        }
        v
    } else {
        let mut v = dec_string(n / 10);
        v.push(c);
        proof {
            assert(v@ =~= dec_digits((n / 10) as nat) + seq![digit_char((n % 10) as nat)]);
        }
        v
    }
}

/// The number right-aligned in the four-column range gutter.
fn gutter_vec(n: usize) -> (r: Vec<char>)
    ensures
        r@ == gutter_num(n as nat),
{
    let d = dec_string(n);
    if d.len() >= 4 {
        d
    } else {
        let pad = 4 - d.len();
        let mut v: Vec<char> = Vec::new();
        let mut i: usize = 0;
        while i < pad
            invariant
                i <= pad,
                v@ == spaces(i as nat),
            decreases pad - i,
        {
            v.push(' ');
            proof {
                assert(v@ =~= spaces((i + 1) as nat));
            }
            i = i + 1;
        }
        let mut dd = d;
        v.append(&mut dd);
        proof {
            assert(v@ =~= gutter_num(n as nat));
        }
        v
    }
}

/// Appends the characters of `s`.
fn push_str_chars(dst: &mut Vec<char>, s: &str)
    ensures
        final(dst)@ == old(dst)@ + s@,
{
    let mut cs = chars_of(s);
    dst.append(&mut cs);
}

/// Builds the diagnostic report for one matched record.
pub fn build_explain(
    header: &String,
    taxo_start: usize,
    taxo_end: usize,
    groups: &Vec<Option<String>>,
    new_header: &String,
) -> (lines: Vec<String>)
    ensures
        lines.deep_view() == explain_lines(
            header@,
            taxo_start as int,
            taxo_end as int,
            groups.deep_view(),
            new_header@,
        ),
{
    let h = chars_of(header.as_str());
    let hlen = h.len();
    let e: usize = if taxo_end > hlen {
        hlen
    } else {
        taxo_end
    };
    let s: usize = if taxo_start > e {
        e
    } else {
        taxo_start
    };
    proof {
        assert(e == clamped_end(header@, taxo_end as int));
        assert(s == clamped_start(header@, taxo_start as int, taxo_end as int));
    }
    let mut mk: Vec<char> = Vec::new();
    let mut k: usize = 0;
    while k < s
        invariant
            k <= s,
            mk@ == spaces(k as nat),
        decreases s - k,
    {
        mk.push(' ');
        proof {
            assert(mk@ =~= spaces((k + 1) as nat));
        }
        k = k + 1;
    }
    proof {
        assert(mk@ =~= spaces(s as nat) + carets(0nat));
    }
    let mut k2: usize = 0;
    while k2 < e - s
        invariant
            s <= e,
            k2 <= e - s,
            mk@ == spaces(s as nat) + carets(k2 as nat),
        decreases e - s - k2,
    {
        mk.push('^');
        proof {
            assert(mk@ =~= spaces(s as nat) + carets((k2 + 1) as nat));
        }
        k2 = k2 + 1;
    }
    proof {
        assert(mk@ == marker(s as nat, e as nat));
    }
    let ghost mkv = mk@;
    let ghost hv = header@;
    let mut lines: Vec<String> = Vec::new();
    let mut hd: Vec<char> = Vec::new();
    push_str_chars(&mut hd, "Original header and taxo capture group (chars ");
    let mut d1 = dec_string(taxo_start);
    hd.append(&mut d1);
    push_str_chars(&mut hd, " to ");
    let mut d2 = dec_string(taxo_end);
    hd.append(&mut d2);
    push_str_chars(&mut hd, "):");
    proof {
        assert(hd@ =~= heading_line(taxo_start as nat, taxo_end as nat));
    }
    lines.push(string_from_chars(&hd));
    let ghost head_part = seq![heading_line(taxo_start as nat, taxo_end as nat)];
    proof {
        assert(lines.deep_view() =~~= head_part);
    }
    let cnt = hlen / 80 + 1;
    let mut i: usize = 0;
    let mut lo: usize = 0;
    while i < cnt
        invariant
            i <= cnt,
            cnt == hv.len() / 80 + 1,
            i < cnt ==> lo == 80 * i,
            i < cnt ==> lo <= hv.len(),
            h@ == hv,
            mk@ == mkv,
            mkv.len() <= hv.len(),
            hlen == hv.len(),
            head_part == seq![heading_line(taxo_start as nat, taxo_end as nat)],
            lines.deep_view() + chunk_pairs(hv, mkv, i as int, cnt - i) == head_part + chunk_pairs(
                hv,
                mkv,
                0,
                cnt as int,
            ),
        decreases cnt - i,
    {
        let hhi: usize = if hlen - lo < 80 {
            hlen
        } else {
            lo + 80
        };
        let mut lv = gutter_vec(lo);
        lv.push('-');
        let mut g2 = gutter_vec(hhi);
        lv.append(&mut g2);
        lv.push('|');
        let mut segv = subvec(&h, lo, hhi);
        lv.append(&mut segv);
        proof {
            assert(lv@ =~= segment_line(hv, lo as int, hhi as int));
        }
        lines.push(string_from_chars(&lv));
        if lo < mk.len() {
            let mhi: usize = if mk.len() - lo < 80 {
                mk.len()
            } else {
                lo + 80
            };
            let mut mv: Vec<char> = Vec::new();
            let mut p: usize = 0;
            while p < 10
                invariant
                    p <= 10,
                    mv@ == spaces(p as nat),
                decreases 10 - p,
            {
                mv.push(' ');
                proof {
                    assert(mv@ =~= spaces((p + 1) as nat));
                }
                p = p + 1;
            }
            let mut ms = subvec(&mk, lo, mhi);
            mv.append(&mut ms);
            proof {
                assert(mv@ =~= spaces(10) + mkv.subrange(lo as int, mhi as int));
            }
            lines.push(string_from_chars(&mv));
        } else {
            lines.push(String::new());
        }
        proof {
            assert(lines.deep_view() + chunk_pairs(hv, mkv, i + 1, cnt - i - 1) =~~= head_part
                + chunk_pairs(hv, mkv, 0, cnt as int));
        }
        i = i + 1;
        if i < cnt {
            lo = lo + 80;
            proof {
                assert(i as int <= hv.len() / 80);
                assert(lo <= hv.len());
            }
        } else {
            proof {
                assert(chunk_pairs(hv, mkv, i as int, cnt - i) =~~= Seq::<Seq<char>>::empty());
            }
        }
    }
    lines.push(String::new());
    lines.push("List of captured groups, enclosed with \":".to_owned());
    let ghost gv = groups.deep_view();
    let ghost base = head_part + chunk_pairs(hv, mkv, 0, cnt as int) + seq![
        Seq::<char>::empty(),
        "List of captured groups, enclosed with \":"@,
    ];
    proof {
        assert(lines.deep_view() =~~= base);
    }
    let mut j: usize = 1;
    let mut num: usize = 1;
    while j < groups.len()
        invariant
            1 <= j,
            1 <= num <= j,
            gv == groups.deep_view(),
            gv.len() == groups@.len(),
            lines.deep_view() + group_lines(gv, j as int, num as nat) == base + group_lines(
                gv,
                1,
                1,
            ),
        decreases groups@.len() - j,
    {
        match &groups[j] {
            Some(t) => {
                let mut qv: Vec<char> = Vec::new();
                qv.push('|');
                let mut nd = dec_string(num);
                qv.append(&mut nd);
                qv.push(':');
                qv.push(' ');
                qv.push('"');
                let mut tc = chars_of(t.as_str());
                qv.append(&mut tc);
                qv.push('"');
                proof {
                    assert(gv[j as int] == Some(t@));
                    assert(qv@ =~= seq!['|'] + dec_digits(num as nat) + seq![':', ' ', '"'] + t@
                        + seq!['"']);
                }
                lines.push(string_from_chars(&qv));
                proof {
                    assert(lines.deep_view() + group_lines(gv, j + 1, (num + 1) as nat) =~~= base
                        + group_lines(gv, 1, 1));
                }
                num = num + 1;
            },
            None => {
                proof {
                    assert(gv[j as int] is None);
                    assert(group_lines(gv, j as int, num as nat) == group_lines(
                        gv,
                        j + 1,
                        num as nat,
                    ));
                }
            },
        }
        j = j + 1;
    }
    proof {
        assert(group_lines(gv, j as int, num as nat) =~~= Seq::<Seq<char>>::empty());
        assert(lines.deep_view() =~~= base + group_lines(gv, 1, 1));
    }
    lines.push(String::new());
    lines.push("New header:".to_owned());
    lines.push(new_header.clone());
    proof {
        assert(lines.deep_view() =~~= explain_lines(
            hv,
            taxo_start as int,
            taxo_end as int,
            gv,
            new_header@,
        ));
    }
    lines
}

} // verus!
