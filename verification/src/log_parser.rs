//! The per-shape field extractors and the line classifier with its section
//! state machine. Each extractor either matches a fixed textual shape or
//! declines, and each is specified exactly: the executable parse returns
//! precisely what the spec-level parse of the line's characters denotes.

use vstd::prelude::*;
use vstd::string::*;
use crate::text::{
    scan_char_idx, scan_char2_idx, matches_at, find_sub_idx, contains_sub, ends_with_view,
    contains_str, trim_view, first_token_view, strip_prefix_view, spec_parse_u32,
    split_char_idx, split_ws_idx, scan_char, scan_char2, trim, first_token, strip_prefix_if,
    starts_with_str, ends_with_str, str_eq_str, find_sub, parse_u32_digits, split_char, split_ws,
};
use crate::decimal::{
    Decimal, pow10, lemma_pow10_pos, dec_scaled, spec_parse_udecimal, spec_parse_decimal,
    parse_udecimal, parse_decimal,
};
use crate::event::{
    LogLevel, FfmpegVersion, FfmpegConfiguration, FfmpegInput, FfmpegOutput, FfmpegDuration,
    AudioStream, VideoStream, StreamTypeSpecificData, FfmpegStream, FfmpegProgress, FfmpegEvent,
    InputModel, OutputModel, VideoModel, AudioModel, PayloadModel, StreamModel, ProgressModel,
    EventModel, payload_model, stream_model, input_model, output_model, progress_model,
    event_model,
};

verus! {

/// The version token of a `ffmpeg version <v> ...` line, after an optional
/// `[info]` tag.
pub open spec fn spec_try_parse_version(s: Seq<char>) -> Option<Seq<char>> {
    let t = trim_view(strip_prefix_view(s, "[info]"@));
    if matches_at(t, "ffmpeg version "@, 0) {
        first_token_view(t.subrange("ffmpeg version "@.len() as int, t.len() as int))
    } else {
        None
    }
}

pub fn try_parse_version(string: &str) -> (r: Option<String>)
    ensures
        match r {
            Some(v) => spec_try_parse_version(string@) == Some(v@),
            None => spec_try_parse_version(string@) is None,
        },
{
    let t = trim(strip_prefix_if(string, "[info]"));
    if starts_with_str(t, "ffmpeg version ") {
        let rest = t.substring_char("ffmpeg version ".unicode_len(), t.unicode_len());
        match first_token(rest) {
            Some(tok) => Some(String::from_str(tok)),
            None => None,
        }
    } else {
        None
    }
}

/// The whitespace-separated build flags of a `configuration: ...` line.
pub open spec fn spec_try_parse_configuration(s: Seq<char>) -> Option<Seq<Seq<char>>> {
    let t = trim_view(strip_prefix_view(s, "[info]"@));
    if matches_at(t, "configuration: "@, 0) {
        Some(split_ws_idx(t.subrange("configuration: "@.len() as int, t.len() as int), 0))
    } else {
        None
    }
}

pub fn try_parse_configuration(string: &str) -> (r: Option<Vec<String>>)
    ensures
        match r {
            Some(v) => spec_try_parse_configuration(string@) == Some(v.deep_view()),
            None => spec_try_parse_configuration(string@) is None,
        },
{
    let t = trim(strip_prefix_if(string, "[info]"));
    if starts_with_str(t, "configuration: ") {
        let rest = t.substring_char("configuration: ".unicode_len(), t.unicode_len());
        Some(split_ws(rest))
    } else {
        None
    }
}

/// The index of an `Input #<n>, ...` header line: the digits of the first
/// whitespace token up to a comma.
pub open spec fn spec_try_parse_input(s: Seq<char>) -> Option<u32> {
    let t = trim_view(strip_prefix_view(s, "[info]"@));
    if matches_at(t, "Input #"@, 0) {
        match first_token_view(t.subrange("Input #"@.len() as int, t.len() as int)) {
            Some(tok) => spec_parse_u32(tok.subrange(0, scan_char_idx(tok, 0, ','))),
            None => None,
        }
    } else {
        None
    }
}

pub fn try_parse_input(string: &str) -> (r: Option<u32>)
    ensures
        r == spec_try_parse_input(string@),
{
    let t = trim(strip_prefix_if(string, "[info]"));
    if starts_with_str(t, "Input #") {
        let rest = t.substring_char("Input #".unicode_len(), t.unicode_len());
        match first_token(rest) {
            Some(tok) => {
                let e = scan_char(tok, 0, ',');
                parse_u32_digits(tok.substring_char(0, e))
            },
            None => None,
        }
    } else {
        None
    }
}

/// The index and destination of an `Output #<n>, <fmt>, to '<dest>':` header
/// line; the destination is the text between the first ` to '` and the
/// following quote.
pub open spec fn spec_try_parse_output(s: Seq<char>) -> Option<OutputModel> {
    let t = trim_view(strip_prefix_view(s, "[info]"@));
    if matches_at(t, "Output #"@, 0) {
        let u = t.subrange("Output #"@.len() as int, t.len() as int);
        let index = match first_token_view(u) {
            Some(tok) => spec_parse_u32(tok.subrange(0, scan_char_idx(tok, 0, ','))),
            None => None,
        };
        match index {
            Some(n) => match find_sub_idx(u, " to '"@, 0) {
                Some(i) => {
                    let rest = u.subrange(i + " to '"@.len(), u.len() as int);
                    Some(
                        OutputModel {
                            index: n,
                            to: rest.subrange(0, scan_char_idx(rest, 0, '\'')),
                            raw: s,
                        },
                    )
                },
                None => None,
            },
            None => None,
        }
    } else {
        None
    }
}

pub fn try_parse_output(s: &str) -> (r: Option<FfmpegOutput>)
    ensures
        match r {
            Some(o) => spec_try_parse_output(s@) == Some(output_model(o)),
            None => spec_try_parse_output(s@) is None,
        },
{
    let raw_log_message = String::from_str(s);
    let t = trim(strip_prefix_if(s, "[info]"));
    if !starts_with_str(t, "Output #") {
        return None;
    }
    let u = t.substring_char("Output #".unicode_len(), t.unicode_len());
    let index: u32 = match first_token(u) {
        Some(tok) => {
            let e = scan_char(tok, 0, ',');
            match parse_u32_digits(tok.substring_char(0, e)) {
                Some(n) => n,
                None => {
                    return None;
                },
            }
        },
        None => {
            return None;
        },
    };
    match find_sub(u, " to '", 0) {
        Some(i) => {
            let rest = u.substring_char(i + " to '".unicode_len(), u.unicode_len());
            let e = scan_char(rest, 0, '\'');
            let to = String::from_str(rest.substring_char(0, e));
            Some(FfmpegOutput { index, to, raw_log_message })
        },
        None => None,
    }
}

/// The largest of three scales.
pub open spec fn max3(a: u32, b: u32, c: u32) -> u32 {
    if a >= b && a >= c {
        a
    } else if b >= c {
        b
    } else {
        c
    }
}

/// The sum `3600*hours + 60*minutes + seconds` of three non-negative
/// decimals, brought to the largest of their scales; more than the mantissa
/// can hold yields nothing.
pub open spec fn spec_combine_time(dh: Decimal, dm: Decimal, ds: Decimal) -> Option<Decimal> {
    let k = max3(dh.scale, dm.scale, ds.scale) as nat;
    let total = 3600 * dec_scaled(dh, k) + 60 * dec_scaled(dm, k) + dec_scaled(ds, k);
    if total <= u64::MAX {
        Some(Decimal { negative: false, mantissa: total as u64, scale: max3(dh.scale, dm.scale, ds.scale) })
    } else {
        None
    }
}

/// The parse of a `[[HH:]MM:]SS[.frac]` token into seconds: components split
/// on `:`, read from the right, each a non-negative decimal number.
pub open spec fn spec_parse_time_str(t: Seq<char>) -> Option<Decimal> {
    let cols = split_char_idx(t, 0, ':');
    if 1 <= cols.len() <= 3 {
        let sec = spec_parse_udecimal(cols[cols.len() - 1]);
        let min = if cols.len() >= 2 {
            spec_parse_udecimal(cols[cols.len() - 2])
        } else {
            Some(Decimal { negative: false, mantissa: 0u64, scale: 0u32 })
        };
        let hrs = if cols.len() == 3 {
            spec_parse_udecimal(cols[0])
        } else {
            Some(Decimal { negative: false, mantissa: 0u64, scale: 0u32 })
        };
        match (hrs, min, sec) {
            (Some(dh), Some(dm), Some(ds)) => spec_combine_time(dh, dm, ds),
            _ => None,
        }
    } else {
        None
    }
}

proof fn lemma_pow10_add(x: nat, y: nat)
    ensures
        pow10(x + y) == pow10(x) * pow10(y),
{
    vstd::arithmetic::power::lemma_pow_adds(10, x, y);
}

/// Multiplies a mantissa by a power of ten, detecting overflow exactly.
fn mul_pow10(m: u64, e: u32) -> (r: Option<u64>)
    ensures
        match r {
            Some(v) => v as int == m as int * pow10(e as nat),
            None => m as int * pow10(e as nat) > u64::MAX as int,
        },
{
    let mut cur: u64 = m;
    let mut i: u32 = 0;
    proof {
        vstd::arithmetic::power::lemma_pow0(10);
    }
    while i < e
        invariant
            0 <= i <= e,
            cur as int == m as int * pow10(i as nat),
        decreases e - i,
    {
        proof {
            lemma_pow10_pos(i as nat);
            lemma_pow10_add(i as nat, 1);
            vstd::arithmetic::power::lemma_pow1(10);
        }
        if cur > u64::MAX / 10 {
            proof {
                lemma_pow10_add((i + 1) as nat, (e - i - 1) as nat);
                lemma_pow10_pos((e - i - 1) as nat);
                // m * 10^e == (m * 10^(i+1)) * 10^(e-i-1) >= m * 10^(i+1)
                //          == cur * 10 > u64::MAX
                assert(m as int * pow10((i + 1) as nat) == cur * 10) by (nonlinear_arith)
                    requires
                        cur as int == m as int * pow10(i as nat),
                        pow10((i + 1) as nat) == pow10(i as nat) * pow10(1),
                        pow10(1) == 10,
                ;
                assert(m as int * pow10(e as nat) >= m as int * pow10((i + 1) as nat)) by (
                nonlinear_arith)
                    requires
                        pow10(e as nat) == pow10((i + 1) as nat) * pow10((e - i - 1) as nat),
                        pow10((e - i - 1) as nat) >= 1,
                        m as int * pow10((i + 1) as nat) == cur * 10,
                        cur >= 0,
                ;
            }
            return None;
        }
        cur = cur * 10;
        proof {
            assert(cur as int == m as int * pow10((i + 1) as nat)) by (nonlinear_arith)
                requires
                    cur as int == (m as int * pow10(i as nat)) * 10,
                    pow10((i + 1) as nat) == pow10(i as nat) * pow10(1),
                    pow10(1) == 10,
            ;
        }
        i = i + 1;
    }
    Some(cur)
}

fn combine_time(dh: Decimal, dm: Decimal, ds: Decimal) -> (r: Option<Decimal>)
    requires
        !dh.negative,
        !dm.negative,
        !ds.negative,
    ensures
        r == spec_combine_time(dh, dm, ds),
{
    let k: u32 = if dh.scale >= dm.scale && dh.scale >= ds.scale {
        dh.scale
    } else if dm.scale >= ds.scale {
        dm.scale
    } else {
        ds.scale
    };
    assert(k == max3(dh.scale, dm.scale, ds.scale));
    let ghost kk = k as nat;
    let ghost total = 3600 * dec_scaled(dh, kk) + 60 * dec_scaled(dm, kk) + dec_scaled(ds, kk);
    proof {
        lemma_pow10_pos((kk - dh.scale) as nat);
        lemma_pow10_pos((kk - dm.scale) as nat);
        lemma_pow10_pos((kk - ds.scale) as nat);
        assert(dec_scaled(dh, kk) >= 0) by (nonlinear_arith)
            requires
                dec_scaled(dh, kk) == dh.mantissa as int * pow10((kk - dh.scale) as nat),
                pow10((kk - dh.scale) as nat) >= 1,
                dh.mantissa >= 0,
        ;
        assert(dec_scaled(dm, kk) >= 0) by (nonlinear_arith)
            requires
                dec_scaled(dm, kk) == dm.mantissa as int * pow10((kk - dm.scale) as nat),
                pow10((kk - dm.scale) as nat) >= 1,
                dm.mantissa >= 0,
        ;
        assert(dec_scaled(ds, kk) >= 0) by (nonlinear_arith)
            requires
                dec_scaled(ds, kk) == ds.mantissa as int * pow10((kk - ds.scale) as nat),
                pow10((kk - ds.scale) as nat) >= 1,
                ds.mantissa >= 0,
        ;
    }
    let mh = match mul_pow10(dh.mantissa, k - dh.scale) {
        Some(v) => v,
        None => {
            return None;
        },
    };
    let mm = match mul_pow10(dm.mantissa, k - dm.scale) {
        Some(v) => v,
        None => {
            return None;
        },
    };
    let ms = match mul_pow10(ds.mantissa, k - ds.scale) {
        Some(v) => v,
        None => {
            return None;
        },
    };
    assert(mh as int == dec_scaled(dh, kk));
    assert(mm as int == dec_scaled(dm, kk));
    assert(ms as int == dec_scaled(ds, kk));
    if mh > u64::MAX / 3600 {
        return None;
    }
    let th = mh * 3600;
    if mm > u64::MAX / 60 {
        return None;
    }
    let tm = mm * 60;
    if th > u64::MAX - tm {
        return None;
    }
    let part = th + tm;
    if part > u64::MAX - ms {
        return None;
    }
    Some(Decimal { negative: false, mantissa: part + ms, scale: k })
}

pub fn parse_time_str(s: &str) -> (r: Option<Decimal>)
    ensures
        r == spec_parse_time_str(s@),
{
    let cols: Vec<String> = split_char(s, ':');
    if cols.len() == 0 || cols.len() > 3 {
        return None;
    }
    let zero = Decimal { negative: false, mantissa: 0, scale: 0 };
    let sec = match parse_udecimal(cols[cols.len() - 1].as_str()) {
        Some(d) => d,
        None => {
            return None;
        },
    };
    let min = if cols.len() >= 2 {
        match parse_udecimal(cols[cols.len() - 2].as_str()) {
            Some(d) => d,
            None => {
                return None;
            },
        }
    } else {
        zero
    };
    let hrs = if cols.len() == 3 {
        match parse_udecimal(cols[0].as_str()) {
            Some(d) => d,
            None => {
                return None;
            },
        }
    } else {
        zero
    };
    assert(!sec.negative && !min.negative && !hrs.negative);
    combine_time(hrs, min, sec)
}

/// Law of the time parser, positive half: whenever a token parses, its value
/// is the manual `3600*hours + 60*minutes + seconds` computation over the
/// values of its colon-separated components, read from the right. The
/// equation is stated with every value multiplied by `10^scale` of the
/// result, which makes all quantities integers: `mantissa == 3600*H + 60*M +
/// S` where `H`, `M`, `S` are the components' values on that common scale,
/// and absent components count as zero.
pub proof fn lemma_time_parser_sum(t: Seq<char>)
    requires
        spec_parse_time_str(t) is Some,
    ensures
        ({
            let cols = split_char_idx(t, 0, ':');
            let d = spec_parse_time_str(t)->Some_0;
            let ds = spec_parse_udecimal(cols[cols.len() - 1])->Some_0;
            let dm = if cols.len() >= 2 {
                spec_parse_udecimal(cols[cols.len() - 2])->Some_0
            } else {
                dec_zero()
            };
            let dh = if cols.len() == 3 {
                spec_parse_udecimal(cols[0])->Some_0
            } else {
                dec_zero()
            };
            &&& 1 <= cols.len() <= 3
            &&& !d.negative
            &&& d.scale == max3(dh.scale, dm.scale, ds.scale)
            &&& d.mantissa as int == 3600 * dec_scaled(dh, d.scale as nat) + 60 * dec_scaled(
                dm,
                d.scale as nat,
            ) + dec_scaled(ds, d.scale as nat)
        }),
{
    let cols = split_char_idx(t, 0, ':');
    let ds = spec_parse_udecimal(cols[cols.len() - 1])->Some_0;
    let dm = if cols.len() >= 2 {
        spec_parse_udecimal(cols[cols.len() - 2])->Some_0
    } else {
        dec_zero()
    };
    let dh = if cols.len() == 3 {
        spec_parse_udecimal(cols[0])->Some_0
    } else {
        dec_zero()
    };
    let k = max3(dh.scale, dm.scale, ds.scale) as nat;
    lemma_pow10_pos((k - dh.scale) as nat);
    lemma_pow10_pos((k - dm.scale) as nat);
    lemma_pow10_pos((k - ds.scale) as nat);
    assert(dec_scaled(dh, k) >= 0) by (nonlinear_arith)
        requires
            dec_scaled(dh, k) == dh.mantissa as int * pow10((k - dh.scale) as nat),
            pow10((k - dh.scale) as nat) >= 1,
            dh.mantissa >= 0,
    ;
    assert(dec_scaled(dm, k) >= 0) by (nonlinear_arith)
        requires
            dec_scaled(dm, k) == dm.mantissa as int * pow10((k - dm.scale) as nat),
            pow10((k - dm.scale) as nat) >= 1,
            dm.mantissa >= 0,
    ;
    assert(dec_scaled(ds, k) >= 0) by (nonlinear_arith)
        requires
            dec_scaled(ds, k) == ds.mantissa as int * pow10((k - ds.scale) as nat),
            pow10((k - ds.scale) as nat) >= 1,
            ds.mantissa >= 0,
    ;
}

/// Law of the time parser, negative half: a token with more than three
/// components, or any component that is not a plain non-negative decimal
/// number (`N/A` among them), yields no value.
pub proof fn lemma_time_parser_rejects(t: Seq<char>)
    requires
        ({
            let cols = split_char_idx(t, 0, ':');
            cols.len() > 3 || exists|i: int|
                0 <= i < cols.len() && #[trigger] spec_parse_udecimal(cols[i]) is None
        }),
    ensures
        spec_parse_time_str(t) is None,
{
    let cols = split_char_idx(t, 0, ':');
    if cols.len() <= 3 {
        let i = choose|i: int| 0 <= i < cols.len() && #[trigger] spec_parse_udecimal(
            cols[i],
        ) is None;
        assert(i == cols.len() - 1 || (cols.len() >= 2 && i == cols.len() - 2) || (cols.len() == 3
            && i == 0));
    }
}

/// The seconds of a `Duration: <time>, ...` line: the text up to the first
/// comma goes through the time parser; `N/A` or anything unparsable yields
/// nothing.
pub open spec fn spec_try_parse_duration(s: Seq<char>) -> Option<Decimal> {
    let t = trim_view(strip_prefix_view(s, "[info]"@));
    if matches_at(t, "Duration:"@, 0) {
        let v = trim_view(t.subrange("Duration:"@.len() as int, t.len() as int));
        spec_parse_time_str(v.subrange(0, scan_char_idx(v, 0, ',')))
    } else {
        None
    }
}

pub fn try_parse_duration(string: &str) -> (r: Option<Decimal>)
    ensures
        r == spec_try_parse_duration(string@),
{
    let t = trim(strip_prefix_if(string, "[info]"));
    if starts_with_str(t, "Duration:") {
        let v = trim(t.substring_char("Duration:".unicode_len(), t.unicode_len()));
        let e = scan_char(v, 0, ',');
        parse_time_str(v.substring_char(0, e))
    } else {
        None
    }
}

/// What is left of `x[i..]` after dropping every piece that stands between
/// square-bracket delimiters: pieces alternate between kept and dropped at
/// each `[` or `]`.
pub open spec fn remove_bracketed_from(x: Seq<char>, i: int, keep: bool) -> Seq<char>
    decreases x.len() - i,
{
    if !(0 <= i < x.len()) {
        Seq::empty()
    } else if x[i] == '[' || x[i] == ']' {
        remove_bracketed_from(x, i + 1, !keep)
    } else if keep {
        seq![x[i]] + remove_bracketed_from(x, i + 1, keep)
    } else {
        remove_bracketed_from(x, i + 1, keep)
    }
}

proof fn lemma_remove_bracketed_chunk(x: Seq<char>, i: int, j: int, keep: bool)
    requires
        0 <= i <= j <= x.len(),
        forall|k: int| i <= k < j ==> #[trigger] x[k] != '[' && x[k] != ']',
    ensures
        remove_bracketed_from(x, i, keep) == (if keep {
            x.subrange(i, j)
        } else {
            Seq::<char>::empty()
        }) + remove_bracketed_from(x, j, keep),
    decreases j - i,
{
    if i == j {
        assert(x.subrange(i, i) =~= Seq::<char>::empty());
        assert((Seq::<char>::empty() + remove_bracketed_from(x, j, keep)) =~=
            remove_bracketed_from(x, j, keep));
    } else {
        lemma_remove_bracketed_chunk(x, i + 1, j, keep);
        if keep {
            assert((seq![x[i]] + (x.subrange(i + 1, j) + remove_bracketed_from(x, j, keep))) =~= (
            x.subrange(i, j) + remove_bracketed_from(x, j, keep)));
        } else {
            assert((Seq::<char>::empty() + remove_bracketed_from(x, j, keep)) =~=
                remove_bracketed_from(x, j, keep));
        }
    }
}

/// Removes everything inside and including square brackets, as in the
/// `2[0x3](eng)` shape of a stream index token.
fn remove_bracketed(x: &str) -> (r: String)
    ensures
        r@ == remove_bracketed_from(x@, 0, true),
{
    let n = x.unicode_len();
    let mut out = String::new();
    let mut keep = true;
    let mut i: usize = 0;
    loop
        invariant
            0 <= i <= n,
            n == x@.len(),
            out@ + remove_bracketed_from(x@, i as int, keep) == remove_bracketed_from(x@, 0, true),
        decreases n - i,
    {
        let j = scan_char2(x, i, '[', ']');
        proof {
            crate::text::lemma_scan_char2(x@, i as int, '[', ']');
            lemma_remove_bracketed_chunk(x@, i as int, j as int, keep);
        }
        if keep {
            out.append(x.substring_char(i, j));
        }
        if j >= n {
            assert(remove_bracketed_from(x@, j as int, keep) =~= Seq::<char>::empty());
            assert(out@ =~= out@ + remove_bracketed_from(x@, j as int, keep));
            return out;
        }
        keep = !keep;
        i = j + 1;
    }
}

/// Index `j <= t.len()` such that `t[j..]` is the maximal trailing run of
/// closing parentheses.
pub open spec fn trim_parens_idx(t: Seq<char>, j: int) -> int
    decreases j,
{
    if 0 < j <= t.len() && t[j - 1] == ')' {
        trim_parens_idx(t, j - 1)
    } else {
        j
    }
}

/// `t` with every trailing closing parenthesis removed.
pub open spec fn trim_end_parens_view(t: Seq<char>) -> Seq<char> {
    t.subrange(0, trim_parens_idx(t, t.len() as int))
}

fn trim_end_parens<'a>(t: &'a str) -> (r: &'a str)
    ensures
        r@ == trim_end_parens_view(t@),
{
    let n = t.unicode_len();
    let mut b = n;
    while b > 0 && t.get_char(b - 1) == ')'
        invariant
            0 <= b <= n,
            n == t@.len(),
            trim_parens_idx(t@, n as int) == trim_parens_idx(t@, b as int),
        decreases b,
    {
        b = b - 1;
    }
    t.substring_char(0, b)
}

/// The first word of an already-trimmed field: everything before the first
/// space or opening parenthesis, which cuts trailing junk like `(Main)`.
pub open spec fn leading_word(t: Seq<char>) -> Seq<char> {
    t.subrange(0, scan_char2_idx(t, 0, ' ', '('))
}

/// The first token of the first comma segment at or after `i` whose trimmed
/// text ends in `fps`.
pub open spec fn spec_find_fps_token(segs: Seq<Seq<char>>, i: int) -> Option<Seq<char>>
    decreases segs.len() - i,
{
    if !(0 <= i < segs.len()) {
        None
    } else {
        let t = trim_view(segs[i]);
        if t.len() >= "fps"@.len() && matches_at(t, "fps"@, t.len() - "fps"@.len()) {
            first_token_view(segs[i])
        } else {
            spec_find_fps_token(segs, i + 1)
        }
    }
}

/// The video payload read from the comma segments after the head segment:
/// pixel format, `WxH` dimensions, and the first field ending in `fps`.
pub open spec fn spec_parse_video(segs: Seq<Seq<char>>) -> Option<PayloadModel> {
    if segs.len() < 3 {
        None
    } else {
        let pix = leading_word(trim_view(segs[1]));
        match first_token_view(segs[2]) {
            Some(dims) => {
                let xi = scan_char_idx(dims, 0, 'x');
                if xi >= dims.len() {
                    None
                } else {
                    let rest = dims.subrange(xi + 1, dims.len() as int);
                    match (
                        spec_parse_u32(dims.subrange(0, xi)),
                        spec_parse_u32(rest.subrange(0, scan_char_idx(rest, 0, 'x'))),
                    ) {
                        (Some(w), Some(h)) => match spec_find_fps_token(segs, 3) {
                            Some(ft) => match spec_parse_decimal(ft) {
                                Some(f) => Some(
                                    PayloadModel::Video(
                                        VideoModel { pix_fmt: pix, width: w, height: h, fps: f },
                                    ),
                                ),
                                None => None,
                            },
                            None => None,
                        },
                        _ => None,
                    }
                }
            },
            None => None,
        }
    }
}

/// The audio payload read from the comma segments after the head segment:
/// sample rate and free-text channel descriptor.
pub open spec fn spec_parse_audio(segs: Seq<Seq<char>>) -> Option<PayloadModel> {
    if segs.len() < 3 {
        None
    } else {
        match first_token_view(segs[1]) {
            Some(tok) => match spec_parse_u32(tok) {
                Some(rate) => Some(
                    PayloadModel::Audio(
                        AudioModel { sample_rate: rate, channels: trim_view(segs[2]) },
                    ),
                ),
                None => None,
            },
            None => None,
        }
    }
}

/// The parse of a `Stream #<p>:<n>[...](lang): <Type>: <format> ...` line.
pub open spec fn spec_try_parse_stream(s: Seq<char>) -> Option<StreamModel> {
    let t = trim_view(strip_prefix_view(s, "[info]"@));
    if !matches_at(t, "Stream #"@, 0) {
        None
    } else {
        let u = t.subrange("Stream #"@.len() as int, t.len() as int);
        let segs = crate::comma_iter::split_commas_view(u);
        let cols = split_char_idx(segs[0], 0, ':');
        if cols.len() < 4 {
            None
        } else {
            match spec_parse_u32(cols[0]) {
                Some(parent) => {
                    let ic = remove_bracketed_from(cols[1], 0, true);
                    let p = scan_char_idx(ic, 0, '(');
                    match spec_parse_u32(trim_view(ic.subrange(0, p))) {
                        Some(sidx) => {
                            let language = if p >= ic.len() {
                                Seq::<char>::empty()
                            } else {
                                trim_end_parens_view(
                                    ic.subrange(p + 1, scan_char_idx(ic, p + 1, '(')),
                                )
                            };
                            let stype = trim_view(cols[2]);
                            let format = leading_word(trim_view(cols[3]));
                            let payload = if stype == "Audio"@ {
                                spec_parse_audio(segs)
                            } else if stype == "Video"@ {
                                spec_parse_video(segs)
                            } else if stype == "Subtitle"@ {
                                Some(PayloadModel::Subtitle)
                            } else {
                                Some(PayloadModel::Other)
                            };
                            match payload {
                                Some(pl) => Some(
                                    StreamModel {
                                        format,
                                        language,
                                        parent_index: parent,
                                        stream_index: sidx,
                                        raw: s,
                                        payload: pl,
                                    },
                                ),
                                None => None,
                            }
                        },
                        None => None,
                    }
                },
                None => None,
            }
        }
    }
}

/// Parses the comma segments that follow the head segment of an audio stream
/// line.
pub fn try_parse_audio_stream(segs: &Vec<String>) -> (r: Option<StreamTypeSpecificData>)
    ensures
        match r {
            Some(d) => spec_parse_audio(segs.deep_view()) == Some(payload_model(d)) && d is Audio,
            None => spec_parse_audio(segs.deep_view()) is None,
        },
{
    if segs.len() < 3 {
        return None;
    }
    let ghost gsegs = segs.deep_view();
    assert(gsegs[1] == segs@[1]@ && gsegs[2] == segs@[2]@);
    match first_token(segs[1].as_str()) {
        Some(tok) => match parse_u32_digits(tok) {
            Some(rate) => {
                let channels = String::from_str(trim(segs[2].as_str()));
                Some(StreamTypeSpecificData::Audio(AudioStream { sample_rate: rate, channels }))
            },
            None => None,
        },
        None => None,
    }
}

/// Parses the comma segments that follow the head segment of a video stream
/// line.
pub fn try_parse_video_stream(segs: &Vec<String>) -> (r: Option<StreamTypeSpecificData>)
    ensures
        match r {
            Some(d) => spec_parse_video(segs.deep_view()) == Some(payload_model(d)) && d is Video,
            None => spec_parse_video(segs.deep_view()) is None,
        },
{
    if segs.len() < 3 {
        return None;
    }
    let ghost gsegs = segs.deep_view();
    assert(gsegs[1] == segs@[1]@ && gsegs[2] == segs@[2]@);
    let pix_fmt = String::from_str(leading_word_of(trim(segs[1].as_str())));
    let dims = match first_token(segs[2].as_str()) {
        Some(d) => d,
        None => {
            return None;
        },
    };
    let xi = scan_char(dims, 0, 'x');
    let dn = dims.unicode_len();
    if xi >= dn {
        return None;
    }
    let width = match parse_u32_digits(dims.substring_char(0, xi)) {
        Some(w) => w,
        None => {
            return None;
        },
    };
    let rest = dims.substring_char(xi + 1, dn);
    let e2 = scan_char(rest, 0, 'x');
    let height = match parse_u32_digits(rest.substring_char(0, e2)) {
        Some(h) => h,
        None => {
            return None;
        },
    };
    let mut i: usize = 3;
    loop
        invariant
            3 <= i <= gsegs.len(),
            gsegs == segs.deep_view(),
            segs@.len() == gsegs.len(),
            spec_find_fps_token(gsegs, 3) == spec_find_fps_token(gsegs, i as int),
            spec_parse_video(gsegs) matches Some(pl) ==> (pl matches PayloadModel::Video(v)
                && v.pix_fmt == pix_fmt@ && v.width == width && v.height == height),
            spec_parse_video(gsegs) is Some <==> (spec_find_fps_token(gsegs, 3) matches Some(ft)
                && spec_parse_decimal(ft) is Some),
            spec_parse_video(gsegs) matches Some(pl) ==> (pl matches PayloadModel::Video(v)
                && Some(v.fps) == spec_parse_decimal(spec_find_fps_token(gsegs, 3)->Some_0)),
        decreases gsegs.len() - i,
    {
        if i >= segs.len() {
            return None;
        }
        assert(gsegs[i as int] == segs@[i as int]@);
        let t = trim(segs[i].as_str());
        if ends_with_str(t, "fps") {
            match first_token(segs[i].as_str()) {
                Some(tok) => {
                    match parse_decimal(tok) {
                        Some(f) => {
                            return Some(
                                StreamTypeSpecificData::Video(
                                    VideoStream { pix_fmt, width, height, fps: f },
                                ),
                            );
                        },
                        None => {
                            return None;
                        },
                    }
                },
                None => {
                    return None;
                },
            }
        }
        i = i + 1;
    }
}

/// Exec counterpart of `leading_word`.
fn leading_word_of<'a>(t: &'a str) -> (r: &'a str)
    ensures
        r@ == leading_word(t@),
{
    let e = scan_char2(t, 0, ' ', '(');
    t.substring_char(0, e)
}

/// Parses a full stream specification line.
pub fn try_parse_stream(s: &str) -> (r: Option<FfmpegStream>)
    ensures
        match r {
            Some(st) => spec_try_parse_stream(s@) == Some(stream_model(st)),
            None => spec_try_parse_stream(s@) is None,
        },
{
    let raw_log_message = String::from_str(s);
    let t = trim(strip_prefix_if(s, "[info]"));
    if !starts_with_str(t, "Stream #") {
        return None;
    }
    let u = t.substring_char("Stream #".unicode_len(), t.unicode_len());
    let segs: Vec<String> = crate::comma_iter::split_commas(u);
    let ghost gsegs = segs.deep_view();
    assert(gsegs.len() >= 1);
    assert(gsegs[0] == segs@[0]@);
    let cols: Vec<String> = split_char(segs[0].as_str(), ':');
    let ghost gcols = split_char_idx(gsegs[0], 0, ':');
    if cols.len() < 4 {
        return None;
    }
    assert(gcols[0] == cols@[0]@ && gcols[1] == cols@[1]@ && gcols[2] == cols@[2]@ && gcols[3]
        == cols@[3]@);
    let parent_index = match parse_u32_digits(cols[0].as_str()) {
        Some(p) => p,
        None => {
            return None;
        },
    };
    let ic = remove_bracketed(cols[1].as_str());
    let icn = ic.as_str().unicode_len();
    let p = scan_char(ic.as_str(), 0, '(');
    let stream_index = match parse_u32_digits(trim(ic.as_str().substring_char(0, p))) {
        Some(n) => n,
        None => {
            return None;
        },
    };
    let language: String = if p >= icn {
        String::new()
    } else {
        let q = scan_char(ic.as_str(), p + 1, '(');
        String::from_str(trim_end_parens(ic.as_str().substring_char(p + 1, q)))
    };
    let stype = trim(cols[2].as_str());
    let format = String::from_str(leading_word_of(trim(cols[3].as_str())));
    let payload: Option<StreamTypeSpecificData> = if str_eq_str(stype, "Audio") {
        try_parse_audio_stream(&segs)
    } else if str_eq_str(stype, "Video") {
        try_parse_video_stream(&segs)
    } else if str_eq_str(stype, "Subtitle") {
        Some(StreamTypeSpecificData::Subtitle)
    } else {
        Some(StreamTypeSpecificData::Other)
    };
    match payload {
        Some(type_specific_data) => Some(
            FfmpegStream {
                format,
                language,
                parent_index,
                stream_index,
                raw_log_message,
                type_specific_data,
            },
        ),
        None => None,
    }
}

/// The first whitespace token after the first occurrence of `key`.
pub open spec fn spec_key_token(s: Seq<char>, key: Seq<char>) -> Option<Seq<char>> {
    match find_sub_idx(s, key, 0) {
        Some(i) => first_token_view(s.subrange(i + key.len(), s.len() as int)),
        None => None,
    }
}

fn key_token<'a>(s: &'a str, key: &str) -> (r: Option<&'a str>)
    ensures
        match r {
            Some(t) => spec_key_token(s@, key@) == Some(t@),
            None => spec_key_token(s@, key@) is None,
        },
{
    let n = s.unicode_len();
    match find_sub(s, key, 0) {
        Some(i) => first_token(s.substring_char(i + key.unicode_len(), n)),
        None => None,
    }
}

pub open spec fn dec_zero() -> Decimal {
    Decimal { negative: false, mantissa: 0u64, scale: 0u32 }
}

/// The size in KB of a `size=` token: a `KiB` suffix (current releases) or a
/// `kB` suffix (older releases) is stripped, and `N/A` counts as zero.
pub open spec fn spec_size_val(tok: Seq<char>) -> Option<u32> {
    if ends_with_view(tok, "KiB"@) {
        spec_parse_u32(tok.subrange(0, tok.len() - "KiB"@.len()))
    } else if ends_with_view(tok, "kB"@) {
        spec_parse_u32(tok.subrange(0, tok.len() - "kB"@.len()))
    } else if ends_with_view(tok, "N/A"@) {
        Some(0u32)
    } else {
        None
    }
}

/// The value of a `bitrate=` token: a `kbits/s` suffix is stripped and
/// anything unparsable (such as `N/A`) counts as zero.
pub open spec fn spec_bitrate_val(tok: Seq<char>) -> Decimal {
    let u = if ends_with_view(tok, "kbits/s"@) {
        tok.subrange(0, tok.len() - "kbits/s"@.len())
    } else {
        tok
    };
    match spec_parse_decimal(u) {
        Some(d) => d,
        None => dec_zero(),
    }
}

/// The value of a `speed=` token: a trailing `x` is stripped; a token without
/// one (such as `N/A`), or an unparsable remainder, counts as zero.
pub open spec fn spec_speed_val(tok: Seq<char>) -> Decimal {
    if ends_with_view(tok, "x"@) {
        match spec_parse_decimal(tok.subrange(0, tok.len() - "x"@.len())) {
            Some(d) => d,
            None => dec_zero(),
        }
    } else {
        dec_zero()
    }
}

/// The parse of a progress status line: ordered `key=value` tokens located by
/// first-occurrence search. `frame`, `fps`, `q`, `size` and `time` must all
/// parse; `bitrate` and `speed` degrade to zero.
pub open spec fn spec_try_parse_progress(s: Seq<char>) -> Option<ProgressModel> {
    let t = trim_view(strip_prefix_view(s, "[info]"@));
    match spec_key_token(t, "frame="@) {
        Some(ftok) => match spec_parse_u32(ftok) {
            Some(frame) => match spec_key_token(t, "fps="@) {
                Some(fpstok) => match spec_parse_decimal(fpstok) {
                    Some(fps) => match spec_key_token(t, "q="@) {
                        Some(qtok) => match spec_parse_decimal(qtok) {
                            Some(q) => match spec_key_token(t, "size="@) {
                                Some(stok) => match spec_size_val(stok) {
                                    Some(size_kb) => match spec_key_token(t, "time="@) {
                                        Some(time) => match spec_key_token(t, "bitrate="@) {
                                            Some(btok) => match spec_key_token(t, "speed="@) {
                                                Some(sptok) => Some(
                                                    ProgressModel {
                                                        frame,
                                                        fps,
                                                        q,
                                                        size_kb,
                                                        time,
                                                        bitrate_kbps: spec_bitrate_val(btok),
                                                        speed: spec_speed_val(sptok),
                                                        raw: s,
                                                    },
                                                ),
                                                None => None,
                                            },
                                            None => None,
                                        },
                                        None => None,
                                    },
                                    None => None,
                                },
                                None => None,
                            },
                            None => None,
                        },
                        None => None,
                    },
                    None => None,
                },
                None => None,
            },
            None => None,
        },
        None => None,
    }
}

fn strip_suffix_if<'a>(t: &'a str, p: &str) -> (r: Option<&'a str>)
    ensures
        match r {
            Some(u) => ends_with_view(t@, p@) && u@ == t@.subrange(0, t@.len() - p@.len()),
            None => !ends_with_view(t@, p@),
        },
{
    if ends_with_str(t, p) {
        Some(t.substring_char(0, t.unicode_len() - p.unicode_len()))
    } else {
        None
    }
}

fn size_val(tok: &str) -> (r: Option<u32>)
    ensures
        r == spec_size_val(tok@),
{
    match strip_suffix_if(tok, "KiB") {
        Some(u) => parse_u32_digits(u),
        None => match strip_suffix_if(tok, "kB") {
            Some(u) => parse_u32_digits(u),
            None => {
                if ends_with_str(tok, "N/A") {
                    Some(0)
                } else {
                    None
                }
            },
        },
    }
}

fn bitrate_val(tok: &str) -> (r: Decimal)
    ensures
        r == spec_bitrate_val(tok@),
{
    let u = match strip_suffix_if(tok, "kbits/s") {
        Some(u) => u,
        None => tok,
    };
    match parse_decimal(u) {
        Some(d) => d,
        None => Decimal::zero(),
    }
}

fn speed_val(tok: &str) -> (r: Decimal)
    ensures
        r == spec_speed_val(tok@),
{
    match strip_suffix_if(tok, "x") {
        Some(u) => match parse_decimal(u) {
            Some(d) => d,
            None => Decimal::zero(),
        },
        None => Decimal::zero(),
    }
}

/// Parses a progress status line.
pub fn try_parse_progress(string: &str) -> (r: Option<FfmpegProgress>)
    ensures
        match r {
            Some(p) => spec_try_parse_progress(string@) == Some(progress_model(p)),
            None => spec_try_parse_progress(string@) is None,
        },
{
    let raw_log_message = String::from_str(string);
    let t = trim(strip_prefix_if(string, "[info]"));
    let frame = match key_token(t, "frame=") {
        Some(tok) => match parse_u32_digits(tok) {
            Some(v) => v,
            None => {
                return None;
            },
        },
        None => {
            return None;
        },
    };
    let fps = match key_token(t, "fps=") {
        Some(tok) => match parse_decimal(tok) {
            Some(v) => v,
            None => {
                return None;
            },
        },
        None => {
            return None;
        },
    };
    let q = match key_token(t, "q=") {
        Some(tok) => match parse_decimal(tok) {
            Some(v) => v,
            None => {
                return None;
            },
        },
        None => {
            return None;
        },
    };
    let size_kb = match key_token(t, "size=") {
        Some(tok) => match size_val(tok) {
            Some(v) => v,
            None => {
                return None;
            },
        },
        None => {
            return None;
        },
    };
    let time = match key_token(t, "time=") {
        Some(tok) => String::from_str(tok),
        None => {
            return None;
        },
    };
    let bitrate_kbps = match key_token(t, "bitrate=") {
        Some(tok) => bitrate_val(tok),
        None => {
            return None;
        },
    };
    let speed = match key_token(t, "speed=") {
        Some(tok) => speed_val(tok),
        None => {
            return None;
        },
    };
    Some(FfmpegProgress { frame, fps, q, size_kb, time, bitrate_kbps, speed, raw_log_message })
}

/// The logical phase of the log, inferred from header lines; it decides how
/// otherwise-ambiguous lines (durations, stream specifications) are read.
#[derive(Clone, Copy, Debug, PartialEq, Eq, Structural)]
pub enum LogSection {
    Input(u32),
    Output(u32),
    StreamMapping,
    Other,
}

/// The one-line classification step: from the current section and a line to
/// the new section and the event the line denotes. The precedence chain is:
/// input header, output header (each updating the section), then — with the
/// section updated by a `Stream mapping:` marker — version, configuration,
/// duration (an input duration only inside an input section, a plain log line
/// elsewhere), stream-mapping entry, stream specification (an error outside
/// input and output sections), progress (resetting the section), and finally
/// a severity-tagged or unknown log line.
pub open spec fn spec_classify(sec: LogSection, l: Seq<char>) -> (LogSection, EventModel) {
    if spec_try_parse_input(l) is Some {
        let n = spec_try_parse_input(l)->Some_0;
        (LogSection::Input(n), EventModel::Input(InputModel { index: n, duration: None, raw: l }))
    } else if spec_try_parse_output(l) is Some {
        let o = spec_try_parse_output(l)->Some_0;
        (LogSection::Output(o.index), EventModel::Output(o))
    } else {
        let sec1 = if contains_sub(l, "Stream mapping:"@) {
            LogSection::StreamMapping
        } else {
            sec
        };
        if spec_try_parse_version(l) is Some {
            (sec1, EventModel::Version(spec_try_parse_version(l)->Some_0, l))
        } else if spec_try_parse_configuration(l) is Some {
            (sec1, EventModel::Configuration(spec_try_parse_configuration(l)->Some_0, l))
        } else if spec_try_parse_duration(l) is Some {
            match sec1 {
                LogSection::Input(idx) => (
                    sec1,
                    EventModel::Duration(idx, spec_try_parse_duration(l)->Some_0, l),
                ),
                _ => (sec1, EventModel::Log(LogLevel::Info, l)),
            }
        } else if sec1 is StreamMapping && contains_sub(l, "  Stream #"@) {
            (sec1, EventModel::StreamMappingEntry(l))
        } else if spec_try_parse_stream(l) is Some {
            match sec1 {
                LogSection::Input(_) => (
                    sec1,
                    EventModel::InputStream(spec_try_parse_stream(l)->Some_0),
                ),
                LogSection::Output(_) => (
                    sec1,
                    EventModel::OutputStream(spec_try_parse_stream(l)->Some_0),
                ),
                _ => (sec1, EventModel::UnexpectedStream(l)),
            }
        } else if spec_try_parse_progress(l) is Some {
            (LogSection::Other, EventModel::Progress(spec_try_parse_progress(l)->Some_0))
        } else if contains_sub(l, "[info]"@) {
            (sec1, EventModel::Log(LogLevel::Info, l))
        } else if contains_sub(l, "[warning]"@) {
            (sec1, EventModel::Log(LogLevel::Warning, l))
        } else if contains_sub(l, "[error]"@) {
            (sec1, EventModel::Log(LogLevel::Error, l))
        } else if contains_sub(l, "[fatal]"@) {
            (sec1, EventModel::Log(LogLevel::Fatal, l))
        } else {
            (sec1, EventModel::Log(LogLevel::Unknown, l))
        }
    }
}

/// The line classifier and section tracker. It consumes one line per call and
/// produces exactly one event per line; the end of the source is reported as
/// a terminal `LogEOF` event.
pub struct FfmpegLogParser {
    cur_section: LogSection,
}

impl FfmpegLogParser {
    pub closed spec fn section(&self) -> LogSection {
        self.cur_section
    }

    pub fn new() -> (r: Self)
        ensures
            r.section() == LogSection::Other,
    {
        FfmpegLogParser { cur_section: LogSection::Other }
    }

    /// Classifies the next line (`None` when the source is exhausted) into
    /// exactly one event, updating the section state; the one error case is a
    /// stream specification line outside an input or output section.
    pub fn parse_next_event(&mut self, line: Option<&str>) -> (r: Result<FfmpegEvent, String>)
        ensures
            match line {
                None => r == Ok::<FfmpegEvent, String>(FfmpegEvent::LogEOF) && *final(self)
                    == *old(self),
                Some(l) => {
                    &&& final(self).section() == spec_classify(old(self).section(), l@).0
                    &&& match r {
                        Ok(ev) => event_model(ev) == spec_classify(old(self).section(), l@).1
                            && !(spec_classify(old(self).section(), l@).1 is UnexpectedStream),
                        Err(msg) => spec_classify(old(self).section(), l@).1
                            == EventModel::UnexpectedStream(l@) && msg@
                            == "Unexpected stream specification: "@ + l@,
                    }
                },
            },
    {
        let l = match line {
            None => {
                return Ok(FfmpegEvent::LogEOF);
            },
            Some(l) => l,
        };
        let raw = String::from_str(l);
        if let Some(n) = try_parse_input(l) {
            self.cur_section = LogSection::Input(n);
            return Ok(
                FfmpegEvent::ParsedInput(
                    FfmpegInput { index: n, duration: None, raw_log_message: raw },
                ),
            );
        }
        if let Some(o) = try_parse_output(l) {
            self.cur_section = LogSection::Output(o.index);
            return Ok(FfmpegEvent::ParsedOutput(o));
        }
        if contains_str(l, "Stream mapping:") {
            self.cur_section = LogSection::StreamMapping;
        }
        if let Some(v) = try_parse_version(l) {
            return Ok(
                FfmpegEvent::ParsedVersion(FfmpegVersion { version: v, raw_log_message: raw }),
            );
        }
        if let Some(c) = try_parse_configuration(l) {
            return Ok(
                FfmpegEvent::ParsedConfiguration(
                    FfmpegConfiguration { configuration: c, raw_log_message: raw },
                ),
            );
        }
        if let Some(d) = try_parse_duration(l) {
            match self.cur_section {
                LogSection::Input(input_index) => {
                    return Ok(
                        FfmpegEvent::ParsedDuration(
                            FfmpegDuration { input_index, duration: d, raw_log_message: raw },
                        ),
                    );
                },
                _ => {
                    return Ok(FfmpegEvent::Log(LogLevel::Info, raw));
                },
            }
        }
        let in_mapping = matches!(self.cur_section, LogSection::StreamMapping);
        if in_mapping && contains_str(l, "  Stream #") {
            return Ok(FfmpegEvent::ParsedStreamMapping(raw));
        }
        if let Some(st) = try_parse_stream(l) {
            match self.cur_section {
                LogSection::Input(_) => {
                    return Ok(FfmpegEvent::ParsedInputStream(st));
                },
                LogSection::Output(_) => {
                    return Ok(FfmpegEvent::ParsedOutputStream(st));
                },
                _ => {
                    let mut msg = String::from_str("Unexpected stream specification: ");
                    msg.append(l);
                    return Err(msg);
                },
            }
        }
        if let Some(p) = try_parse_progress(l) {
            self.cur_section = LogSection::Other;
            return Ok(FfmpegEvent::Progress(p));
        }
        if contains_str(l, "[info]") {
            Ok(FfmpegEvent::Log(LogLevel::Info, raw))
        } else if contains_str(l, "[warning]") {
            Ok(FfmpegEvent::Log(LogLevel::Warning, raw))
        } else if contains_str(l, "[error]") {
            Ok(FfmpegEvent::Log(LogLevel::Error, raw))
        } else if contains_str(l, "[fatal]") {
            Ok(FfmpegEvent::Log(LogLevel::Fatal, raw))
        } else {
            Ok(FfmpegEvent::Log(LogLevel::Unknown, raw))
        }
    }
}

} // verus!
