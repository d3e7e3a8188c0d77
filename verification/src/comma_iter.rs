//! The delimiter-aware splitter: a line is cut at commas, but only at
//! parenthesis nesting depth zero, so that `yuv444p(tv, progressive)` stays
//! one segment.

use vstd::prelude::*;
use vstd::string::*;
use crate::text::scan_char_idx;

verus! {

/// The parenthesis nesting depth after reading `c` at depth `d`; a stray
/// closing parenthesis at depth zero is ignored.
pub open spec fn next_depth(d: nat, c: char) -> nat {
    if c == '(' {
        d + 1
    } else if c == ')' {
        if d > 0 {
            (d - 1) as nat
        } else {
            0
        }
    } else {
        d
    }
}

/// Index of the first comma at parenthesis depth zero at or after `i`, the
/// scan starting at depth `d`; `s.len()` if there is none.
pub open spec fn scan_top_comma_idx(s: Seq<char>, i: int, d: nat) -> int
    decreases s.len() - i,
{
    if 0 <= i < s.len() {
        if s[i] == ',' && d == 0 {
            i
        } else {
            scan_top_comma_idx(s, i + 1, next_depth(d, s[i]))
        }
    } else {
        i
    }
}

pub proof fn lemma_scan_top_comma(s: Seq<char>, i: int, d: nat)
    requires
        0 <= i <= s.len(),
    ensures
        i <= scan_top_comma_idx(s, i, d) <= s.len(),
        scan_top_comma_idx(s, i, d) < s.len() ==> s[scan_top_comma_idx(s, i, d)] == ',',
    decreases s.len() - i,
{
    if i < s.len() && !(s[i] == ',' && d == 0) {
        lemma_scan_top_comma(s, i + 1, next_depth(d, s[i]));
    }
}

/// How many commas of `t` stand at parenthesis depth zero, the scan starting
/// at depth `d`.
pub open spec fn count_top_commas(t: Seq<char>, d: nat) -> nat
    decreases t.len(),
{
    if t.len() == 0 {
        0
    } else {
        (if t[0] == ',' && d == 0 {
            1nat
        } else {
            0nat
        }) + count_top_commas(t.drop_first(), next_depth(d, t[0]))
    }
}

/// The comma-delimited segments of `s[i..]`, commas inside parentheses not
/// splitting; always at least one (possibly empty) segment.
pub open spec fn split_commas_idx(s: Seq<char>, i: int) -> Seq<Seq<char>>
    decreases s.len() - i,
    via split_commas_idx_dec
{
    if !(0 <= i <= s.len()) {
        Seq::empty()
    } else {
        let j = scan_top_comma_idx(s, i, 0);
        if j >= s.len() {
            seq![s.subrange(i, s.len() as int)]
        } else {
            seq![s.subrange(i, j)] + split_commas_idx(s, j + 1)
        }
    }
}

#[via_fn]
proof fn split_commas_idx_dec(s: Seq<char>, i: int) {
    if 0 <= i <= s.len() {
        lemma_scan_top_comma(s, i, 0);
    }
}

pub open spec fn split_commas_view(s: Seq<char>) -> Seq<Seq<char>> {
    split_commas_idx(s, 0)
}

/// The segments re-joined with commas.
pub open spec fn join_commas(ps: Seq<Seq<char>>) -> Seq<char>
    decreases ps.len(),
{
    if ps.len() == 0 {
        Seq::empty()
    } else if ps.len() == 1 {
        ps[0]
    } else {
        ps[0] + seq![','] + join_commas(ps.drop_first())
    }
}

/// A scan that finds no top-level comma before `j` leaves a comma-free
/// stretch.
proof fn lemma_scan_stretch_no_commas(s: Seq<char>, i: int, d: nat)
    requires
        0 <= i <= s.len(),
    ensures
        count_top_commas(
            s.subrange(i, if scan_top_comma_idx(s, i, d) <= s.len() {
                scan_top_comma_idx(s, i, d)
            } else {
                s.len() as int
            }),
            d,
        ) == 0,
    decreases s.len() - i,
{
    lemma_scan_top_comma(s, i, d);
    let j = scan_top_comma_idx(s, i, d);
    if i < s.len() && !(s[i] == ',' && d == 0) {
        lemma_scan_top_comma(s, i + 1, next_depth(d, s[i]));
        lemma_scan_stretch_no_commas(s, i + 1, next_depth(d, s[i]));
        assert(s.subrange(i, j).drop_first() =~= s.subrange(i + 1, j));
    } else {
        assert(s.subrange(i, i) =~= Seq::<char>::empty());
    }
}

/// A scan that stops at `j` splits the comma count: one for the comma at `j`
/// plus the count of the rest.
proof fn lemma_scan_count_decompose(s: Seq<char>, i: int, d: nat)
    requires
        0 <= i <= s.len(),
        scan_top_comma_idx(s, i, d) < s.len(),
    ensures
        count_top_commas(s.subrange(i, s.len() as int), d) == 1 + count_top_commas(
            s.subrange(scan_top_comma_idx(s, i, d) + 1, s.len() as int),
            0,
        ),
    decreases s.len() - i,
{
    lemma_scan_top_comma(s, i, d);
    let j = scan_top_comma_idx(s, i, d);
    if s[i] == ',' && d == 0 {
        assert(j == i);
        assert(s.subrange(i, s.len() as int).drop_first() =~= s.subrange(i + 1, s.len() as int));
        assert(next_depth(0, ',') == 0);
    } else {
        lemma_scan_count_decompose(s, i + 1, next_depth(d, s[i]));
        assert(s.subrange(i, s.len() as int).drop_first() =~= s.subrange(i + 1, s.len() as int));
    }
}

proof fn lemma_split_commas_props(s: Seq<char>, i: int)
    requires
        0 <= i <= s.len(),
    ensures
        split_commas_idx(s, i).len() == 1 + count_top_commas(s.subrange(i, s.len() as int), 0),
        join_commas(split_commas_idx(s, i)) == s.subrange(i, s.len() as int),
        forall|p: int| 0 <= p < split_commas_idx(s, i).len() ==> count_top_commas(
            #[trigger] split_commas_idx(s, i)[p],
            0,
        ) == 0,
    decreases s.len() - i,
{
    lemma_scan_top_comma(s, i, 0);
    let j = scan_top_comma_idx(s, i, 0);
    let res = split_commas_idx(s, i);
    lemma_scan_stretch_no_commas(s, i, 0);
    if j >= s.len() {
        assert(res =~= seq![s.subrange(i, s.len() as int)]);
    } else {
        lemma_scan_count_decompose(s, i, 0);
        lemma_split_commas_props(s, j + 1);
        let rec = split_commas_idx(s, j + 1);
        assert(res.drop_first() =~= rec);
        assert(join_commas(res) == s.subrange(i, j) + seq![','] + s.subrange(
            j + 1,
            s.len() as int,
        ));
        assert(s.subrange(i, j) + seq![','] + s.subrange(j + 1, s.len() as int) =~= s.subrange(
            i,
            s.len() as int,
        ));
        assert forall|p: int| 0 <= p < res.len() implies count_top_commas(
            #[trigger] res[p],
            0,
        ) == 0 by {
            if p == 0 {
                assert(res[0] == s.subrange(i, j));
            } else {
                assert(res[p] == rec[p - 1]);
            }
        }
    }
}

/// The law of the delimiter-aware splitter: re-joining the segments with
/// commas restores the line, there is exactly one more segment than there are
/// top-level commas (so every top-level comma is a cut), and no segment keeps
/// a top-level comma inside it (so no cut is missed and none falls inside
/// balanced parentheses, where a comma does not count as top-level).
pub proof fn lemma_split_commas_law(s: Seq<char>)
    ensures
        split_commas_view(s).len() == 1 + count_top_commas(s, 0),
        join_commas(split_commas_view(s)) == s,
        forall|p: int| 0 <= p < split_commas_view(s).len() ==> count_top_commas(
            #[trigger] split_commas_view(s)[p],
            0,
        ) == 0,
{
    lemma_split_commas_props(s, 0);
    assert(s.subrange(0, s.len() as int) =~= s);
}

/// Exec scan for the next top-level comma.
fn scan_top_comma(s: &str, from: usize) -> (r: usize)
    requires
        from <= s@.len(),
    ensures
        r == scan_top_comma_idx(s@, from as int, 0),
        from <= r <= s@.len(),
{
    proof {
        lemma_scan_top_comma(s@, from as int, 0);
    }
    let n = s.unicode_len();
    let mut i = from;
    let mut d: usize = 0;
    while i < n && !(s.get_char(i) == ',' && d == 0)
        invariant
            from <= i <= n,
            d <= i,
            n == s@.len(),
            scan_top_comma_idx(s@, from as int, 0) == scan_top_comma_idx(s@, i as int, d as nat),
        decreases n - i,
    {
        let c = s.get_char(i);
        if c == '(' {
            d = d + 1;
        } else if c == ')' {
            if d > 0 {
                d = d - 1;
            }
        }
        i = i + 1;
    }
    proof {
        lemma_scan_top_comma(s@, i as int, d as nat);
    }
    i
}

/// Splits a line into its comma-delimited segments, commas nested inside
/// parentheses not splitting.
pub fn split_commas(s: &str) -> (r: Vec<String>)
    ensures
        r.deep_view() == split_commas_view(s@),
{
    let n = s.unicode_len();
    let mut res: Vec<String> = Vec::new();
    let mut i: usize = 0;
    loop
        invariant
            0 <= i <= n,
            n == s@.len(),
            res.deep_view() + split_commas_idx(s@, i as int) == split_commas_idx(s@, 0),
        decreases n - i,
    {
        let j = scan_top_comma(s, i);
        let ghost pre = res.deep_view();
        let piece = String::from_str(s.substring_char(i, j));
        res.push(piece);
        assert(res.deep_view() =~= pre.push(s@.subrange(i as int, j as int)));
        if j >= n {
            assert(res.deep_view() =~= split_commas_idx(s@, 0));
            return res;
        }
        assert(split_commas_idx(s@, i as int) =~= seq![s@.subrange(i as int, j as int)]
            + split_commas_idx(s@, j as int + 1));
        assert(res.deep_view() + split_commas_idx(s@, j as int + 1)
            =~= split_commas_idx(s@, 0));
        i = j + 1;
    }
}

} // verus!
