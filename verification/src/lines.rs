//! Detection of line terminators in the raw byte stream. A line ends at
//! `\n`, at `\r\n`, or at a bare `\r` — the last is how the external tool
//! overwrites its progress line in place, so it must count as a terminator
//! rather than be ignored.

use vstd::prelude::*;

verus! {

pub open spec fn is_term_byte(b: u8) -> bool {
    b == 10 || b == 13
}

/// Index of the first terminator byte at or after `i` (`buf.len()` if none).
pub open spec fn scan_term_idx(buf: Seq<u8>, i: int) -> int
    decreases buf.len() - i,
{
    if 0 <= i < buf.len() && !is_term_byte(buf[i]) {
        scan_term_idx(buf, i + 1)
    } else {
        i
    }
}

/// Where the next line of `buf` ends: `Some((end, next))` when `buf[..end]`
/// is a complete line whose terminator occupies `buf[end..next]`. A `\r\n`
/// pair is one terminator. A bare `\r` at the very end of the buffer is a
/// terminator only once the source is exhausted (`eof`), since one more byte
/// could complete it to `\r\n`; this is the single byte of lookahead the
/// format needs.
pub open spec fn spec_scan_line(buf: Seq<u8>, eof: bool) -> Option<(int, int)> {
    let j = scan_term_idx(buf, 0);
    if j >= buf.len() {
        None
    } else if buf[j] == 10 {
        Some((j, j + 1))
    } else if j + 1 < buf.len() {
        if buf[j + 1] == 10 {
            Some((j, j + 2))
        } else {
            Some((j, j + 1))
        }
    } else if eof {
        Some((j, j + 1))
    } else {
        None
    }
}

pub fn scan_line(buf: &Vec<u8>, eof: bool) -> (r: Option<(usize, usize)>)
    ensures
        match r {
            Some((end, next)) => spec_scan_line(buf@, eof) == Some((end as int, next as int))
                && end < next <= buf@.len(),
            None => spec_scan_line(buf@, eof) is None,
        },
{
    let n = buf.len();
    let mut j: usize = 0;
    while j < n && !(buf[j] == 10 || buf[j] == 13)
        invariant
            0 <= j <= n,
            n == buf@.len(),
            scan_term_idx(buf@, 0) == scan_term_idx(buf@, j as int),
        decreases n - j,
    {
        j = j + 1;
    }
    if j >= n {
        None
    } else if buf[j] == 10 {
        Some((j, j + 1))
    } else if j + 1 < n {
        if buf[j + 1] == 10 {
            Some((j, j + 2))
        } else {
            Some((j, j + 1))
        }
    } else if eof {
        Some((j, j + 1))
    } else {
        None
    }
}

} // verus!
