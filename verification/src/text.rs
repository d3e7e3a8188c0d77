//! Character-level scanning primitives shared by all the field extractors:
//! whitespace skipping, searching for a character or a substring, trimming,
//! tokenizing, and decimal digit strings.

use vstd::prelude::*;
use vstd::string::*;

verus! {

/// The whitespace characters that may separate fields of a log line.
pub open spec fn is_ws_char(c: char) -> bool {
    c == ' ' || c == '\t' || c == '\n' || c == '\r'
}

pub open spec fn is_digit_char(c: char) -> bool {
    '0' <= c && c <= '9'
}

pub open spec fn digit_val(c: char) -> nat
    recommends
        is_digit_char(c),
{
    ((c as int) - ('0' as int)) as nat
}

/// Index of the first character at or after `i` that is not whitespace
/// (`s.len()` if all of the rest is whitespace).
pub open spec fn skip_ws_idx(s: Seq<char>, i: int) -> int
    decreases s.len() - i,
{
    if 0 <= i < s.len() && is_ws_char(s[i]) {
        skip_ws_idx(s, i + 1)
    } else {
        i
    }
}

/// Index of the first whitespace character at or after `i` (`s.len()` if none).
pub open spec fn scan_ws_idx(s: Seq<char>, i: int) -> int
    decreases s.len() - i,
{
    if 0 <= i < s.len() && !is_ws_char(s[i]) {
        scan_ws_idx(s, i + 1)
    } else {
        i
    }
}

/// Index of the first occurrence of `c` at or after `i` (`s.len()` if none).
pub open spec fn scan_char_idx(s: Seq<char>, i: int, c: char) -> int
    decreases s.len() - i,
{
    if 0 <= i < s.len() && s[i] != c {
        scan_char_idx(s, i + 1, c)
    } else {
        i
    }
}

/// Index of the first occurrence of `c1` or `c2` at or after `i`
/// (`s.len()` if none).
pub open spec fn scan_char2_idx(s: Seq<char>, i: int, c1: char, c2: char) -> int
    decreases s.len() - i,
{
    if 0 <= i < s.len() && s[i] != c1 && s[i] != c2 {
        scan_char2_idx(s, i + 1, c1, c2)
    } else {
        i
    }
}

pub proof fn lemma_skip_ws(s: Seq<char>, i: int)
    requires
        0 <= i <= s.len(),
    ensures
        i <= skip_ws_idx(s, i) <= s.len(),
        forall|k: int| i <= k < skip_ws_idx(s, i) ==> is_ws_char(#[trigger] s[k]),
        skip_ws_idx(s, i) < s.len() ==> !is_ws_char(s[skip_ws_idx(s, i)]),
    decreases s.len() - i,
{
    if i < s.len() && is_ws_char(s[i]) {
        lemma_skip_ws(s, i + 1);
    }
}

pub proof fn lemma_scan_ws(s: Seq<char>, i: int)
    requires
        0 <= i <= s.len(),
    ensures
        i <= scan_ws_idx(s, i) <= s.len(),
        forall|k: int| i <= k < scan_ws_idx(s, i) ==> !is_ws_char(#[trigger] s[k]),
        scan_ws_idx(s, i) < s.len() ==> is_ws_char(s[scan_ws_idx(s, i)]),
    decreases s.len() - i,
{
    if i < s.len() && !is_ws_char(s[i]) {
        lemma_scan_ws(s, i + 1);
    }
}

pub proof fn lemma_scan_char(s: Seq<char>, i: int, c: char)
    requires
        0 <= i <= s.len(),
    ensures
        i <= scan_char_idx(s, i, c) <= s.len(),
        forall|k: int| i <= k < scan_char_idx(s, i, c) ==> #[trigger] s[k] != c,
        scan_char_idx(s, i, c) < s.len() ==> s[scan_char_idx(s, i, c)] == c,
    decreases s.len() - i,
{
    if i < s.len() && s[i] != c {
        lemma_scan_char(s, i + 1, c);
    }
}

pub proof fn lemma_scan_char2(s: Seq<char>, i: int, c1: char, c2: char)
    requires
        0 <= i <= s.len(),
    ensures
        i <= scan_char2_idx(s, i, c1, c2) <= s.len(),
        forall|k: int| i <= k < scan_char2_idx(s, i, c1, c2)
            ==> #[trigger] s[k] != c1 && s[k] != c2,
        scan_char2_idx(s, i, c1, c2) < s.len()
            ==> s[scan_char2_idx(s, i, c1, c2)] == c1 || s[scan_char2_idx(s, i, c1, c2)] == c2,
    decreases s.len() - i,
{
    if i < s.len() && s[i] != c1 && s[i] != c2 {
        lemma_scan_char2(s, i + 1, c1, c2);
    }
}

pub fn is_ws(c: char) -> (b: bool)
    ensures
        b == is_ws_char(c),
{
    c == ' ' || c == '\t' || c == '\n' || c == '\r'
}

pub fn skip_ws(s: &str, from: usize) -> (r: usize)
    requires
        from <= s@.len(),
    ensures
        r == skip_ws_idx(s@, from as int),
        from <= r <= s@.len(),
{
    let n = s.unicode_len();
    let mut i = from;
    while i < n && is_ws(s.get_char(i))
        invariant
            from <= i <= n,
            n == s@.len(),
            skip_ws_idx(s@, from as int) == skip_ws_idx(s@, i as int),
        decreases n - i,
    {
        i = i + 1;
    }
    i
}

pub fn scan_ws(s: &str, from: usize) -> (r: usize)
    requires
        from <= s@.len(),
    ensures
        r == scan_ws_idx(s@, from as int),
        from <= r <= s@.len(),
{
    let n = s.unicode_len();
    let mut i = from;
    while i < n && !is_ws(s.get_char(i))
        invariant
            from <= i <= n,
            n == s@.len(),
            scan_ws_idx(s@, from as int) == scan_ws_idx(s@, i as int),
        decreases n - i,
    {
        i = i + 1;
    }
    i
}

pub fn scan_char(s: &str, from: usize, c: char) -> (r: usize)
    requires
        from <= s@.len(),
    ensures
        r == scan_char_idx(s@, from as int, c),
        from <= r <= s@.len(),
{
    let n = s.unicode_len();
    let mut i = from;
    while i < n && s.get_char(i) != c
        invariant
            from <= i <= n,
            n == s@.len(),
            scan_char_idx(s@, from as int, c) == scan_char_idx(s@, i as int, c),
        decreases n - i,
    {
        i = i + 1;
    }
    i
}

pub fn scan_char2(s: &str, from: usize, c1: char, c2: char) -> (r: usize)
    requires
        from <= s@.len(),
    ensures
        r == scan_char2_idx(s@, from as int, c1, c2),
        from <= r <= s@.len(),
{
    let n = s.unicode_len();
    let mut i = from;
    while i < n && s.get_char(i) != c1 && s.get_char(i) != c2
        invariant
            from <= i <= n,
            n == s@.len(),
            scan_char2_idx(s@, from as int, c1, c2) == scan_char2_idx(s@, i as int, c1, c2),
        decreases n - i,
    {
        i = i + 1;
    }
    i
}

/// `pat` occurs in `s` starting at index `i`.
pub open spec fn matches_at(s: Seq<char>, pat: Seq<char>, i: int) -> bool {
    0 <= i && i + pat.len() <= s.len() && s.subrange(i, i + pat.len() as int) == pat
}

/// Index of the first occurrence of `pat` at or after `i`, if any.
pub open spec fn find_sub_idx(s: Seq<char>, pat: Seq<char>, i: int) -> Option<int>
    decreases s.len() - i + 1,
{
    if i < 0 || i + pat.len() > s.len() {
        None
    } else if matches_at(s, pat, i) {
        Some(i)
    } else {
        find_sub_idx(s, pat, i + 1)
    }
}

/// Whether `pat` occurs anywhere in `s`.
pub open spec fn contains_sub(s: Seq<char>, pat: Seq<char>) -> bool {
    find_sub_idx(s, pat, 0) is Some
}

pub proof fn lemma_find_sub(s: Seq<char>, pat: Seq<char>, i: int)
    requires
        0 <= i <= s.len(),
    ensures
        match find_sub_idx(s, pat, i) {
            Some(j) => i <= j && matches_at(s, pat, j) && forall|k: int|
                i <= k < j ==> !matches_at(s, pat, k),
            None => forall|k: int| i <= k ==> !matches_at(s, pat, k),
        },
    decreases s.len() - i + 1,
{
    if i + pat.len() > s.len() {
        assert forall|k: int| i <= k implies !matches_at(s, pat, k) by {}
    } else if matches_at(s, pat, i) {
    } else {
        assert(i < s.len()) by {
            if i == s.len() {
                assert(s.subrange(i, i + pat.len() as int) =~= pat);
            }
        }
        lemma_find_sub(s, pat, i + 1);
    }
}

fn check_match_at(s: &str, pat: &str, i: usize) -> (b: bool)
    requires
        i + pat@.len() <= s@.len(),
    ensures
        b == matches_at(s@, pat@, i as int),
{
    let n = s.unicode_len();
    let m = pat.unicode_len();
    let mut j: usize = 0;
    while j < m
        invariant
            0 <= j <= m,
            m == pat@.len(),
            n == s@.len(),
            i + m <= s@.len(),
            forall|k: int| 0 <= k < j ==> s@[i + k] == pat@[k],
        decreases m - j,
    {
        if s.get_char(i + j) != pat.get_char(j) {
            assert(s@.subrange(i as int, i + m as int)[j as int] != pat@[j as int]);
            return false;
        }
        j = j + 1;
    }
    assert(s@.subrange(i as int, i + m as int) =~= pat@);
    true
}

/// First occurrence of `pat` in `s` at or after `from`.
pub fn find_sub(s: &str, pat: &str, from: usize) -> (r: Option<usize>)
    requires
        from <= s@.len(),
    ensures
        match r {
            Some(j) => find_sub_idx(s@, pat@, from as int) == Some(j as int)
                && from <= j && j + pat@.len() <= s@.len(),
            None => find_sub_idx(s@, pat@, from as int) is None,
        },
{
    let n = s.unicode_len();
    let m = pat.unicode_len();
    if m == 0 {
        assert(s@.subrange(from as int, from as int) =~= pat@);
        return Some(from);
    }
    if m > n || from > n - m {
        proof {
            lemma_find_sub(s@, pat@, from as int);
            if let Some(j) = find_sub_idx(s@, pat@, from as int) {
                assert(matches_at(s@, pat@, j));
            }
        }
        return None;
    }
    let mut i = from;
    while i <= n - m
        invariant
            from <= i,
            1 <= m <= n,
            i <= n - m + 1,
            n == s@.len(),
            m == pat@.len(),
            find_sub_idx(s@, pat@, from as int) == find_sub_idx(s@, pat@, i as int),
        decreases n - i,
    {
        if check_match_at(s, pat, i) {
            return Some(i);
        }
        i = i + 1;
    }
    proof {
        lemma_find_sub(s@, pat@, i as int);
        if let Some(j) = find_sub_idx(s@, pat@, i as int) {
            assert(matches_at(s@, pat@, j));
        }
    }
    None
}

/// Whether `s` begins with `pat`.
pub fn starts_with_str(s: &str, pat: &str) -> (b: bool)
    ensures
        b == matches_at(s@, pat@, 0),
{
    let n = s.unicode_len();
    let m = pat.unicode_len();
    if m > n {
        return false;
    }
    check_match_at(s, pat, 0)
}

/// Whether `s` ends with `pat`.
pub fn ends_with_str(s: &str, pat: &str) -> (b: bool)
    ensures
        b == (s@.len() >= pat@.len() && matches_at(s@, pat@, s@.len() - pat@.len())),
{
    let n = s.unicode_len();
    let m = pat.unicode_len();
    if m > n {
        return false;
    }
    check_match_at(s, pat, n - m)
}

/// Whether `t` ends with `p`.
pub open spec fn ends_with_view(t: Seq<char>, p: Seq<char>) -> bool {
    t.len() >= p.len() && matches_at(t, p, t.len() - p.len())
}

/// Whether `pat` occurs anywhere in `s`, executably.
pub fn contains_str(s: &str, pat: &str) -> (b: bool)
    ensures
        b == contains_sub(s@, pat@),
{
    match find_sub(s, pat, 0) {
        Some(_) => true,
        None => false,
    }
}

/// Character-for-character equality of two string slices.
pub fn str_eq_str(a: &str, b: &str) -> (r: bool)
    ensures
        r == (a@ == b@),
{
    let n = a.unicode_len();
    let m = b.unicode_len();
    if n != m {
        return false;
    }
    let r = check_match_at(a, b, 0);
    proof {
        assert(a@.subrange(0, a@.len() as int) =~= a@);
    }
    r
}

/// `s` with `p` removed from its front when it stands there, `s` unchanged
/// otherwise.
pub open spec fn strip_prefix_view(s: Seq<char>, p: Seq<char>) -> Seq<char> {
    if matches_at(s, p, 0) {
        s.subrange(p.len() as int, s.len() as int)
    } else {
        s
    }
}

pub fn strip_prefix_if<'a>(s: &'a str, p: &str) -> (r: &'a str)
    ensures
        r@ == strip_prefix_view(s@, p@),
{
    if starts_with_str(s, p) {
        s.substring_char(p.unicode_len(), s.unicode_len())
    } else {
        s
    }
}

/// Index just after the last whitespace-free position before `j`: the first
/// `k <= j` such that everything in `[k, j)` is whitespace-free scanning from
/// the right; used for trimming trailing whitespace.
pub open spec fn skip_ws_end_idx(s: Seq<char>, j: int) -> int
    decreases j,
{
    if 0 < j <= s.len() && is_ws_char(s[j - 1]) {
        skip_ws_end_idx(s, j - 1)
    } else {
        j
    }
}

/// `s` with leading and trailing whitespace removed.
pub open spec fn trim_view(s: Seq<char>) -> Seq<char> {
    let a = skip_ws_idx(s, 0);
    let b = skip_ws_end_idx(s, s.len() as int);
    if a <= b {
        s.subrange(a, b)
    } else {
        Seq::empty()
    }
}

pub fn trim<'a>(s: &'a str) -> (r: &'a str)
    ensures
        r@ == trim_view(s@),
{
    let n = s.unicode_len();
    let a = skip_ws(s, 0);
    let mut b = n;
    while b > 0 && is_ws(s.get_char(b - 1))
        invariant
            0 <= b <= n,
            n == s@.len(),
            skip_ws_end_idx(s@, n as int) == skip_ws_end_idx(s@, b as int),
        decreases b,
    {
        b = b - 1;
    }
    if a <= b {
        s.substring_char(a, b)
    } else {
        let r = s.substring_char(0, 0);
        assert(r@ =~= Seq::<char>::empty());
        r
    }
}

/// The first whitespace-delimited token of `s`, if `s` is not all whitespace.
pub open spec fn first_token_view(s: Seq<char>) -> Option<Seq<char>> {
    let a = skip_ws_idx(s, 0);
    if a >= s.len() {
        None
    } else {
        Some(s.subrange(a, scan_ws_idx(s, a)))
    }
}

pub fn first_token<'a>(s: &'a str) -> (r: Option<&'a str>)
    ensures
        match r {
            Some(t) => first_token_view(s@) == Some(t@),
            None => first_token_view(s@) is None,
        },
{
    let n = s.unicode_len();
    let a = skip_ws(s, 0);
    if a >= n {
        None
    } else {
        let b = scan_ws(s, a);
        proof {
            lemma_scan_ws(s@, a as int);
        }
        Some(s.substring_char(a, b))
    }
}

/// Every character of `s` is a decimal digit.
pub open spec fn all_digits(s: Seq<char>) -> bool {
    forall|k: int| 0 <= k < s.len() ==> is_digit_char(#[trigger] s[k])
}

/// The numeric value of a digit string, most significant digit first.
pub open spec fn digits_val(s: Seq<char>) -> nat
    decreases s.len(),
{
    if s.len() == 0 {
        0
    } else {
        digits_val(s.drop_last()) * 10 + digit_val(s.last())
    }
}

proof fn lemma_digits_val_step(s: Seq<char>, i: int)
    requires
        0 <= i < s.len(),
    ensures
        digits_val(s.take(i + 1)) == digits_val(s.take(i)) * 10 + digit_val(s[i]),
{
    assert(s.take(i + 1).drop_last() =~= s.take(i));
    assert(s.take(i + 1).last() == s[i]);
}

proof fn lemma_digits_val_prefix_le(s: Seq<char>, i: int)
    requires
        0 <= i <= s.len(),
    ensures
        digits_val(s.take(i)) <= digits_val(s),
    decreases s.len() - i,
{
    if i < s.len() {
        lemma_digits_val_step(s, i);
        lemma_digits_val_prefix_le(s, i + 1);
    } else {
        assert(s.take(i) =~= s);
    }
}

/// The value of a non-empty all-digit string, when it fits in a `u64`.
pub open spec fn spec_parse_u64(t: Seq<char>) -> Option<u64> {
    if t.len() > 0 && all_digits(t) && digits_val(t) <= u64::MAX {
        Some(digits_val(t) as u64)
    } else {
        None
    }
}

/// The value of a non-empty all-digit string, when it fits in a `u32`.
pub open spec fn spec_parse_u32(t: Seq<char>) -> Option<u32> {
    match spec_parse_u64(t) {
        Some(v) => if v <= u32::MAX as u64 {
            Some(v as u32)
        } else {
            None
        },
        None => None,
    }
}

pub fn is_digit(c: char) -> (b: bool)
    ensures
        b == is_digit_char(c),
{
    '0' <= c && c <= '9'
}

pub fn parse_u64_digits(t: &str) -> (r: Option<u64>)
    ensures
        r == spec_parse_u64(t@),
{
    let n = t.unicode_len();
    if n == 0 {
        return None;
    }
    let mut acc: u64 = 0;
    let mut i: usize = 0;
    while i < n
        invariant
            0 <= i <= n,
            n == t@.len(),
            n > 0,
            all_digits(t@.take(i as int)),
            acc == digits_val(t@.take(i as int)),
        decreases n - i,
    {
        let c = t.get_char(i);
        if !is_digit(c) {
            assert(!all_digits(t@));
            return None;
        }
        let d: u64 = (c as u32 as u64) - ('0' as u32 as u64);
        assert(d == digit_val(c));
        proof {
            lemma_digits_val_step(t@, i as int);
        }
        if acc > 0x1999999999999999u64 || (acc == 0x1999999999999999u64 && d > 5) {
            proof {
                assert(digits_val(t@.take(i + 1)) > u64::MAX);
                lemma_digits_val_prefix_le(t@, i + 1);
            }
            return None;
        }
        acc = acc * 10 + d;
        assert(all_digits(t@.take(i + 1))) by {
            assert(forall|k: int| 0 <= k < i + 1 ==> t@.take(i + 1)[k] == t@[k]);
        }
        i = i + 1;
    }
    assert(t@.take(n as int) =~= t@);
    Some(acc)
}

/// The pieces of `s[i..]` delimited by `c`; always at least one (possibly
/// empty) piece.
pub open spec fn split_char_idx(s: Seq<char>, i: int, c: char) -> Seq<Seq<char>>
    decreases s.len() - i,
    via split_char_idx_dec
{
    if !(0 <= i <= s.len()) {
        Seq::empty()
    } else {
        let j = scan_char_idx(s, i, c);
        if j >= s.len() {
            seq![s.subrange(i, s.len() as int)]
        } else {
            seq![s.subrange(i, j)] + split_char_idx(s, j + 1, c)
        }
    }
}

#[via_fn]
proof fn split_char_idx_dec(s: Seq<char>, i: int, c: char) {
    if 0 <= i <= s.len() {
        lemma_scan_char(s, i, c);
    }
}

pub fn split_char(s: &str, c: char) -> (r: Vec<String>)
    ensures
        r.deep_view() == split_char_idx(s@, 0, c),
{
    let n = s.unicode_len();
    let mut res: Vec<String> = Vec::new();
    let mut i: usize = 0;
    loop
        invariant
            0 <= i <= n,
            n == s@.len(),
            res.deep_view() + split_char_idx(s@, i as int, c) == split_char_idx(s@, 0, c),
        decreases n - i,
    {
        let j = scan_char(s, i, c);
        let ghost pre = res.deep_view();
        let piece = String::from_str(s.substring_char(i, j));
        res.push(piece);
        assert(res.deep_view() =~= pre.push(s@.subrange(i as int, j as int)));
        if j >= n {
            assert(res.deep_view() =~= split_char_idx(s@, 0, c));
            return res;
        }
        assert(split_char_idx(s@, i as int, c) =~= seq![s@.subrange(i as int, j as int)]
            + split_char_idx(s@, j as int + 1, c));
        assert(res.deep_view() + split_char_idx(s@, j as int + 1, c)
            =~= split_char_idx(s@, 0, c));
        i = j + 1;
    }
}

/// The whitespace-delimited tokens of `s[i..]`.
pub open spec fn split_ws_idx(s: Seq<char>, i: int) -> Seq<Seq<char>>
    decreases s.len() - i,
    via split_ws_idx_dec
{
    if !(0 <= i <= s.len()) {
        Seq::empty()
    } else {
        let a = skip_ws_idx(s, i);
        if a >= s.len() {
            Seq::empty()
        } else {
            let b = scan_ws_idx(s, a);
            seq![s.subrange(a, b)] + split_ws_idx(s, b)
        }
    }
}

#[via_fn]
proof fn split_ws_idx_dec(s: Seq<char>, i: int) {
    if 0 <= i <= s.len() {
        lemma_skip_ws(s, i);
        let a = skip_ws_idx(s, i);
        if a < s.len() {
            assert(scan_ws_idx(s, a) == scan_ws_idx(s, a + 1));
            lemma_scan_ws(s, a + 1);
        }
    }
}

pub fn split_ws(s: &str) -> (r: Vec<String>)
    ensures
        r.deep_view() == split_ws_idx(s@, 0),
{
    let n = s.unicode_len();
    let mut res: Vec<String> = Vec::new();
    let mut i: usize = 0;
    loop
        invariant
            0 <= i <= n,
            n == s@.len(),
            res.deep_view() + split_ws_idx(s@, i as int) == split_ws_idx(s@, 0),
        decreases n - i,
    {
        let a = skip_ws(s, i);
        if a >= n {
            assert(split_ws_idx(s@, i as int) =~= Seq::<Seq<char>>::empty());
            assert(res.deep_view() =~= res.deep_view() + split_ws_idx(s@, i as int));
            return res;
        }
        let b = scan_ws(s, a);
        proof {
            lemma_skip_ws(s@, i as int);
            lemma_scan_ws(s@, a as int);
        }
        let ghost pre = res.deep_view();
        let piece = String::from_str(s.substring_char(a, b));
        res.push(piece);
        assert(res.deep_view() =~= pre.push(s@.subrange(a as int, b as int)));
        assert(pre.push(s@.subrange(a as int, b as int)) + split_ws_idx(s@, b as int)
            =~= pre + split_ws_idx(s@, i as int));
        i = b;
    }
}

pub fn parse_u32_digits(t: &str) -> (r: Option<u32>)
    ensures
        r == spec_parse_u32(t@),
{
    match parse_u64_digits(t) {
        Some(v) => if v <= u32::MAX as u64 {
            Some(v as u32)
        } else {
            None
        },
        None => None,
    }
}

} // verus!
