//! Exact representation of the decimal numbers that appear in the log
//! (frame rates, quality values, bitrates, speeds, durations): a sign, an
//! integer mantissa and a power-of-ten scale, so that `-1.25` is held as
//! `(negative, 125, 2)` with no rounding.

use vstd::prelude::*;
use vstd::string::*;
use crate::text::{scan_char_idx, all_digits, digits_val, is_digit_char, scan_char, parse_u64_digits};

verus! {

/// A decimal number `(-1)^negative * mantissa / 10^scale`.
#[derive(Clone, Copy, Debug, PartialEq, Eq, Structural)]
pub struct Decimal {
    pub negative: bool,
    pub mantissa: u64,
    pub scale: u32,
}

impl Decimal {
    /// The zero that unparsable lenient fields (bitrate, speed) fall back to.
    pub fn zero() -> (r: Decimal)
        ensures
            r == (Decimal { negative: false, mantissa: 0u64, scale: 0u32 }),
    {
        Decimal { negative: false, mantissa: 0, scale: 0 }
    }
}

/// `10^n`.
pub open spec fn pow10(n: nat) -> int {
    vstd::arithmetic::power::pow(10, n)
}

pub proof fn lemma_pow10_pos(n: nat)
    ensures
        pow10(n) >= 1,
{
    vstd::arithmetic::power::lemma_pow_positive(10, n);
}

/// The mantissa with the sign applied: the numerator of the value over
/// `10^scale`.
pub open spec fn dec_num(d: Decimal) -> int {
    if d.negative {
        -(d.mantissa as int)
    } else {
        d.mantissa as int
    }
}

/// The value of `d` multiplied by `10^k`, an integer whenever `k >= d.scale`.
pub open spec fn dec_scaled(d: Decimal, k: nat) -> int
    recommends
        k >= d.scale,
{
    dec_num(d) * pow10((k - d.scale) as nat)
}

/// The parse of an unsigned decimal token: digits with at most one point and
/// at least one digit overall, rejected if the digits do not fit in the
/// mantissa.
pub open spec fn spec_parse_udecimal(t: Seq<char>) -> Option<Decimal> {
    let dot = scan_char_idx(t, 0, '.');
    let ip = t.subrange(0, dot);
    let fp = if dot < t.len() {
        t.subrange(dot + 1, t.len() as int)
    } else {
        Seq::empty()
    };
    if all_digits(ip) && all_digits(fp) && ip.len() + fp.len() > 0 && digits_val(ip + fp)
        <= u64::MAX && fp.len() <= u32::MAX {
        Some(
            Decimal {
                negative: false,
                mantissa: digits_val(ip + fp) as u64,
                scale: fp.len() as u32,
            },
        )
    } else {
        None
    }
}

/// The parse of a decimal token with an optional leading minus sign.
pub open spec fn spec_parse_decimal(t: Seq<char>) -> Option<Decimal> {
    if t.len() > 0 && t[0] == '-' {
        match spec_parse_udecimal(t.subrange(1, t.len() as int)) {
            Some(d) => Some(Decimal { negative: true, mantissa: d.mantissa, scale: d.scale }),
            None => None,
        }
    } else {
        spec_parse_udecimal(t)
    }
}

pub fn parse_udecimal(t: &str) -> (r: Option<Decimal>)
    ensures
        r == spec_parse_udecimal(t@),
{
    let n = t.unicode_len();
    let dot = scan_char(t, 0, '.');
    let ip = t.substring_char(0, dot);
    let fp = if dot < n {
        t.substring_char(dot + 1, n)
    } else {
        let e = t.substring_char(n, n);
        assert(e@ =~= Seq::<char>::empty());
        e
    };
    let mut cat = String::from_str(ip);
    cat.append(fp);
    assert(cat@ == ip@ + fp@);
    proof {
        if all_digits(ip@) && all_digits(fp@) {
            assert forall|k: int| 0 <= k < (ip@ + fp@).len() implies is_digit_char(
                #[trigger] (ip@ + fp@)[k],
            ) by {
                if k < ip@.len() {
                    assert((ip@ + fp@)[k] == ip@[k]);
                } else {
                    assert((ip@ + fp@)[k] == fp@[k - ip@.len()]);
                }
            }
        } else {
            if !all_digits(ip@) {
                let k = choose|k: int| 0 <= k < ip@.len() && !is_digit_char(#[trigger] ip@[k]);
                assert((ip@ + fp@)[k] == ip@[k]);
            } else {
                let k = choose|k: int| 0 <= k < fp@.len() && !is_digit_char(#[trigger] fp@[k]);
                assert((ip@ + fp@)[k + ip@.len()] == fp@[k]);
            }
            assert(!all_digits(ip@ + fp@));
        }
    }
    match parse_u64_digits(cat.as_str()) {
        Some(m) => {
            let scale_usize = if dot < n {
                n - dot - 1
            } else {
                0
            };
            assert(scale_usize == fp@.len());
            if scale_usize <= u32::MAX as usize {
                Some(Decimal { negative: false, mantissa: m, scale: scale_usize as u32 })
            } else {
                None
            }
        },
        None => None,
    }
}

pub fn parse_decimal(t: &str) -> (r: Option<Decimal>)
    ensures
        r == spec_parse_decimal(t@),
{
    let n = t.unicode_len();
    if n > 0 && t.get_char(0) == '-' {
        match parse_udecimal(t.substring_char(1, n)) {
            Some(d) => Some(Decimal { negative: true, mantissa: d.mantissa, scale: d.scale }),
            None => None,
        }
    } else {
        parse_udecimal(t)
    }
}

} // verus!
