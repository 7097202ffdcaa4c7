//! Reading what the toolchain reports: the time reached in a progress line,
//! times and durations as numbers, and the share of the work that is done.

use crate::text::all_digits;
use crate::text::char_is_digit;
use crate::text::char_is_whitespace;
use crate::text::chars_of;
use crate::text::digits_value;
use crate::text::find_text;
use crate::text::find_whitespace;
use crate::text::index_of;
use crate::text::is_digit;
use crate::text::is_whitespace;
use crate::text::millis_text;
use crate::text::millis_to_string;
use crate::text::parse_i64;
use crate::text::parse_in_range;
use crate::text::round_half_even;
use crate::text::round_half_up;
use crate::text::div_round_half_up;
use crate::timeline::ExportTimings;
use crate::timeline::TimingsModel;
use crate::text::div_round_half_even;
use crate::text::string_of;
use crate::text::whitespace_from;
use vstd::prelude::*;

verus! {

/// A number of microseconds written as seconds with three decimals: the
/// value is rounded to the nearest millisecond, ties to even, and keeps its
/// sign.
pub open spec fn micros_text(us: int) -> Seq<char> {
    if us < 0 {
        seq!['-'] + millis_text(round_half_even(-us, 1000))
    } else {
        millis_text(round_half_even(us, 1000))
    }
}

/// Renders a number of microseconds as seconds with three decimals.
pub fn micros_to_string(us: i64) -> (s: String)
    ensures
        s@ == micros_text(us as int),
{
    let magnitude: u128 = if us < 0 {
        (-(us as i128)) as u128
    } else {
        us as u128
    };
    let ms = div_round_half_even(magnitude, 1000);
    let body = millis_to_string(ms as i128);
    if us < 0 {
        let mut s = String::new();
        s.push('-');
        s.append(body.as_str());
        assert(s@ =~= micros_text(us as int));
        s
    } else {
        body
    }
}

/// The time that a progress line of the toolchain reports, as text.
///
/// A line that holds `time=` reports what follows it up to the next
/// whitespace or the end of the line. Any other line that holds
/// `out_time_ms=` followed by an integer, up to the next whitespace or the end
/// of the line, reports that many microseconds, written as seconds with three
/// decimals. No other line reports a time.
pub open spec fn time_in_line(line: Seq<char>) -> Option<Seq<char>> {
    match index_of(line, "time="@) {
        Some(at) => {
            let start = at + "time="@.len();
            match whitespace_from(line, start) {
                Some(end) => Some(line.subrange(start, end)),
                None => Some(line.subrange(start, line.len() as int)),
            }
        },
        None => match index_of(line, "out_time_ms="@) {
            Some(at) => {
                let start = at + "out_time_ms="@.len();
                let end = match whitespace_from(line, start) {
                    Some(end) => end,
                    None => line.len() as int,
                };
                match parse_in_range(line.subrange(start, end), i64::MIN as int, i64::MAX as int) {
                    Some(us) => Some(micros_text(us)),
                    None => None,
                }
            },
            None => None,
        },
    }
}

/// Extracts the time that a progress line of the toolchain reports.
pub fn extract_time_from_ffmpeg_line(line: &str) -> (r: Option<String>)
    ensures
        match r {
            Some(t) => time_in_line(line@) == Some(t@),
            None => time_in_line(line@) is None,
        },
{
    let chars = chars_of(line);
    let time_key = chars_of("time=");
    match find_text(&chars, &time_key) {
        Some(at) => {
            let start = at + time_key.len();
            match find_whitespace(&chars, start) {
                Some(end) => Some(string_of(&chars, start, end)),
                None => Some(string_of(&chars, start, chars.len())),
            }
        },
        None => {
            let micro_key = chars_of("out_time_ms=");
            match find_text(&chars, &micro_key) {
                Some(at) => {
                    let start = at + micro_key.len();
                    let end = match find_whitespace(&chars, start) {
                        Some(end) => end,
                        None => chars.len(),
                    };
                    match parse_i64(&chars, start, end) {
                        Some(us) => Some(micros_to_string(us)),
                        None => None,
                    }
                },
                None => None,
            }
        },
    }
}

/// Whether a line of the toolchain's output may report progress.
pub fn is_progress_line(line: &str) -> (b: bool)
    ensures
        b == (crate::text::contains_text(line@, "time="@) || crate::text::contains_text(
            line@,
            "out_time_ms="@,
        )),
{
    let chars = chars_of(line);
    crate::text::text_contains(&chars, "time=") || crate::text::text_contains(
        &chars,
        "out_time_ms=",
    )
}

/// The most seconds that one number of a time is read as; larger numbers
/// count as this many.
pub const MAX_SECONDS: u128 = 0x1_0000_0000_0000_0000;

/// `x`, but no more than [`MAX_SECONDS`].
pub open spec fn capped(x: int) -> int {
    if x < MAX_SECONDS {
        x
    } else {
        MAX_SECONDS as int
    }
}

/// The first position of the character `c` in `s`, or the length of `s`
/// where there is none.
pub open spec fn char_index(s: Seq<char>, c: char) -> int
    decreases s.len(),
{
    if s.len() == 0 {
        0
    } else if s[0] == c {
        0
    } else {
        1 + char_index(s.skip(1), c)
    }
}

/// What follows position `at` in `s`: nothing where `at` is the end.
pub open spec fn after(s: Seq<char>, at: int) -> Seq<char> {
    if 0 <= at < s.len() {
        s.skip(at + 1)
    } else {
        Seq::empty()
    }
}

/// The decimals `frac` as microseconds: the first six digits count, missing
/// ones are zero.
pub open spec fn fraction_micros(frac: Seq<char>) -> int {
    digits_value((frac + "000000"@).take(6)) as int
}

/// The number of microseconds that a decimal number of seconds denotes.
///
/// The number is an optional sign, digits, and optionally a point and more
/// digits, with at least one digit in all. Decimals beyond the sixth are
/// dropped.
pub open spec fn decimal_micros(s: Seq<char>) -> Option<int> {
    let signed = s.len() > 0 && (s[0] == '-' || s[0] == '+');
    let body = if signed {
        s.skip(1)
    } else {
        s
    };
    let dot = char_index(body, '.');
    let whole = body.take(dot);
    let frac = after(body, dot);
    if !all_digits(whole) || !all_digits(frac) || whole.len() + frac.len() == 0 {
        None
    } else {
        let micros = capped(digits_value(whole) as int) * 1_000_000 + fraction_micros(frac);
        if signed && s[0] == '-' {
            Some(-micros)
        } else {
            Some(micros)
        }
    }
}

/// The time that a text denotes, in microseconds: a decimal number of
/// seconds, or hours, minutes and seconds separated by colons, each a decimal
/// number. Any other text denotes zero.
pub open spec fn time_micros(s: Seq<char>) -> int {
    match decimal_micros(s) {
        Some(v) => v,
        None => {
            let first = char_index(s, ':');
            let rest = after(s, first);
            let second = char_index(rest, ':');
            match (
                decimal_micros(s.take(first)),
                decimal_micros(rest.take(second)),
                decimal_micros(after(rest, second)),
            ) {
                (Some(h), Some(m), Some(sec)) => if first < s.len() && second < rest.len() {
                    h * 3600 + m * 60 + sec
                } else {
                    0
                },
                _ => 0,
            }
        },
    }
}

/// The first position of `c` in `v[from..to]`, or `to`.
fn find_char(v: &Vec<char>, from: usize, to: usize, c: char) -> (at: usize)
    requires
        from <= to <= v.len(),
    ensures
        from <= at <= to,
        at - from == char_index(v@.subrange(from as int, to as int), c),
{
    let mut at = from;
    while at < to
        invariant
            from <= at <= to <= v.len(),
            char_index(v@.subrange(from as int, to as int), c) == (at - from) + char_index(
                v@.subrange(at as int, to as int),
                c,
            ),
        decreases to - at,
    {
        let ghost here = v@.subrange(at as int, to as int);
        assert(here[0] == v@[at as int]);
        if v[at] == c {
            return at;
        }
        assert(here.skip(1) =~= v@.subrange(at + 1, to as int));
        at += 1;
    }
    at
}

/// Reads `v[from..to]` as digits: their value, capped, or nothing where a
/// character is no digit.
fn read_digits(v: &Vec<char>, from: usize, to: usize) -> (r: Option<u128>)
    requires
        from <= to <= v.len(),
    ensures
        match r {
            Some(x) => all_digits(v@.subrange(from as int, to as int)) && x == capped(
                digits_value(v@.subrange(from as int, to as int)) as int,
            ),
            None => !all_digits(v@.subrange(from as int, to as int)),
        },
{
    let ghost s = v@.subrange(from as int, to as int);
    let mut acc: u128 = 0;
    let mut i: usize = from;
    while i < to
        invariant
            from <= i <= to <= v.len(),
            s == v@.subrange(from as int, to as int),
            all_digits(s.take(i - from)),
            acc == capped(digits_value(s.take(i - from)) as int),
        decreases to - i,
    {
        let c = v[i];
        assert(s[i - from] == c);
        if !char_is_digit(c) {
            assert(!is_digit(s[i - from]));
            return None;
        }
        let d = (c as u32 - 0x30) as u128;
        proof {
            let now = s.take(i - from + 1);
            assert(now.drop_last() =~= s.take(i - from));
            assert(now.last() == c);
            assert(all_digits(now)) by {
                assert forall|j: int| 0 <= j < now.len() implies is_digit(#[trigger] now[j]) by {
                    if j < now.len() - 1 {
                        assert(now[j] == s.take(i - from)[j]);
                    }
                }
            }
        }
        let next = acc * 10 + d;
        acc = if next < MAX_SECONDS {
            next
        } else {
            MAX_SECONDS
        };
        i += 1;
    }
    assert(s.take(to - from) =~= s);
    Some(acc)
}

/// Reads the decimals `v[from..to]` as microseconds.
fn read_fraction(v: &Vec<char>, from: usize, to: usize) -> (r: Option<u128>)
    requires
        from <= to <= v.len(),
    ensures
        match r {
            Some(x) => all_digits(v@.subrange(from as int, to as int)) && x == fraction_micros(
                v@.subrange(from as int, to as int),
            ) && x < 1_000_000,
            None => !all_digits(v@.subrange(from as int, to as int)),
        },
{
    let ghost frac = v@.subrange(from as int, to as int);
    let ghost padded = (frac + "000000"@).take(6);
    if read_digits(v, from, to).is_none() {
        return None;
    }
    proof {
        reveal_strlit("000000");
    }
    let mut acc: u128 = 0;
    let mut k: usize = 0;
    while k < 6
        invariant
            k <= 6,
            from <= to <= v.len(),
            frac == v@.subrange(from as int, to as int),
            all_digits(frac),
            padded == (frac + "000000"@).take(6),
            "000000"@.len() == 6,
            forall|j: int| 0 <= j < 6 ==> "000000"@[j] == '0',
            acc == digits_value(padded.take(k as int)),
            acc < pow10_small(k as int),
        decreases 6 - k,
    {
        let d: u128 = if to - from > k {
            let c = v[from + k];
            assert(frac[k as int] == c);
            assert(is_digit(frac[k as int]));
            assert(padded[k as int] == c);
            (c as u32 - 0x30) as u128
        } else {
            assert(padded[k as int] == "000000"@[k - frac.len()]);
            0
        };
        assert(padded.take(k + 1).drop_last() =~= padded.take(k as int));
        assert(padded.take(k + 1).last() == padded[k as int]);
        acc = acc * 10 + d;
        k += 1;
    }
    assert(padded.take(6) =~= padded);
    Some(acc)
}

/// Ten to the power `k` for `0 <= k <= 6`.
pub open spec fn pow10_small(k: int) -> int {
    if k <= 0 {
        1
    } else if k == 1 {
        10
    } else if k == 2 {
        100
    } else if k == 3 {
        1000
    } else if k == 4 {
        10_000
    } else if k == 5 {
        100_000
    } else {
        1_000_000
    }
}

/// Reads `v[from..to]` as a decimal number of seconds, in microseconds.
fn read_decimal(v: &Vec<char>, from: usize, to: usize) -> (r: Option<i128>)
    requires
        from <= to <= v.len(),
    ensures
        match r {
            Some(x) => decimal_micros(v@.subrange(from as int, to as int)) == Some(x as int),
            None => decimal_micros(v@.subrange(from as int, to as int)) is None,
        },
        r matches Some(x) ==> -(MAX_SECONDS + 1) * 1_000_000 < x < (MAX_SECONDS + 1) * 1_000_000,
{
    let ghost s = v@.subrange(from as int, to as int);
    let signed = from < to && (v[from] == '-' || v[from] == '+');
    let negative = signed && v[from] == '-';
    let start = if signed {
        from + 1
    } else {
        from
    };
    let ghost body = v@.subrange(start as int, to as int);
    proof {
        if from < to {
            assert(s[0] == v@[from as int]);
        }
        assert(body =~= if signed {
            s.skip(1)
        } else {
            s
        });
    }
    let dot = find_char(v, start, to, '.');
    let frac_start = if dot < to {
        dot + 1
    } else {
        to
    };
    proof {
        assert(body.take(dot - start) =~= v@.subrange(start as int, dot as int));
        assert(after(body, dot - start) =~= v@.subrange(frac_start as int, to as int));
    }
    let whole = read_digits(v, start, dot);
    let frac = read_fraction(v, frac_start, to);
    match (whole, frac) {
        (Some(seconds), Some(micros)) => {
            if (dot - start) + (to - frac_start) == 0 {
                None
            } else {
                let value = (seconds * 1_000_000 + micros) as i128;
                if negative {
                    Some(-value)
                } else {
                    Some(value)
                }
            }
        },
        _ => None,
    }
}

/// Reads a time as the toolchain writes it, in microseconds.
pub fn parse_ffmpeg_time(time_str: &str) -> (us: i128)
    ensures
        us == time_micros(time_str@),
{
    let v = chars_of(time_str);
    let n = v.len();
    assert(v@.subrange(0, n as int) =~= v@);
    match read_decimal(&v, 0, n) {
        Some(x) => x,
        None => {
            let first = find_char(&v, 0, n, ':');
            let rest_start = if first < n {
                first + 1
            } else {
                n
            };
            let second = find_char(&v, rest_start, n, ':');
            let last_start = if second < n {
                second + 1
            } else {
                n
            };
            proof {
                let s = v@;
                let rest = after(s, first as int);
                assert(rest =~= v@.subrange(rest_start as int, n as int));
                assert(s.take(first as int) =~= v@.subrange(0, first as int));
                assert(rest.take(second - rest_start) =~= v@.subrange(
                    rest_start as int,
                    second as int,
                ));
                assert(after(rest, second - rest_start) =~= v@.subrange(
                    last_start as int,
                    n as int,
                ));
            }
            let hours = read_decimal(&v, 0, first);
            let minutes = read_decimal(&v, rest_start, second);
            let seconds = read_decimal(&v, last_start, n);
            match (hours, minutes, seconds) {
                (Some(h), Some(m), Some(s)) => {
                    if first < n && second < n {
                        h * 3600 + m * 60 + s
                    } else {
                        0
                    }
                },
                _ => 0,
            }
        },
    }
}

/// `s` without the whitespace at its start.
pub open spec fn trim_start(s: Seq<char>) -> Seq<char>
    decreases s.len(),
{
    if s.len() > 0 && is_whitespace(s[0]) {
        trim_start(s.skip(1))
    } else {
        s
    }
}

/// `s` without the whitespace at its end.
pub open spec fn trim_end(s: Seq<char>) -> Seq<char>
    decreases s.len(),
{
    if s.len() > 0 && is_whitespace(s.last()) {
        trim_end(s.drop_last())
    } else {
        s
    }
}

/// `s` without the whitespace at its start and end.
pub open spec fn trimmed(s: Seq<char>) -> Seq<char> {
    trim_end(trim_start(s))
}

/// The bounds of `v` without the whitespace at its start and end.
fn trim_bounds(v: &Vec<char>) -> (r: (usize, usize))
    ensures
        r.0 <= r.1 <= v.len(),
        v@.subrange(r.0 as int, r.1 as int) == trimmed(v@),
{
    let n = v.len();
    let mut lo: usize = 0;
    assert(v@.subrange(0, n as int) =~= v@);
    while lo < n && char_is_whitespace(v[lo])
        invariant
            lo <= n == v.len(),
            trim_start(v@) == trim_start(v@.subrange(lo as int, n as int)),
        decreases n - lo,
    {
        let ghost here = v@.subrange(lo as int, n as int);
        assert(here[0] == v@[lo as int]);
        assert(here.skip(1) =~= v@.subrange(lo + 1, n as int));
        lo += 1;
    }
    proof {
        let here = v@.subrange(lo as int, n as int);
        if lo < n {
            assert(here[0] == v@[lo as int]);
        }
        assert(trim_start(v@) == here);
    }
    let mut hi: usize = n;
    while hi > lo && char_is_whitespace(v[hi - 1])
        invariant
            lo <= hi <= n == v.len(),
            trimmed(v@) == trim_end(v@.subrange(lo as int, hi as int)),
        decreases hi - lo,
    {
        let ghost here = v@.subrange(lo as int, hi as int);
        assert(here.last() == v@[hi - 1]);
        assert(here.drop_last() =~= v@.subrange(lo as int, hi - 1));
        hi -= 1;
    }
    proof {
        let here = v@.subrange(lo as int, hi as int);
        if hi > lo {
            assert(here.last() == v@[hi - 1]);
        }
    }
    (lo, hi)
}

/// The duration that the probe reports, in microseconds: its output without
/// surrounding whitespace read as a decimal number of seconds. Output that
/// is no such number, or a negative one, counts as zero; the result is capped
/// at the largest 64-bit value.
pub open spec fn probe_micros(output: Seq<char>) -> int {
    match decimal_micros(trimmed(output)) {
        Some(v) => if v < 0 {
            0
        } else if v > u64::MAX {
            u64::MAX as int
        } else {
            v
        },
        None => 0,
    }
}

/// Reads the duration that the probe reports, in microseconds. A probe that
/// could not be run reports nothing, which counts as zero.
pub fn ffprobe_duration_sec(output: Option<&str>) -> (us: u64)
    ensures
        us == match output {
            Some(text) => probe_micros(text@),
            None => 0,
        },
{
    match output {
        None => 0,
        Some(text) => {
            let v = chars_of(text);
            let (lo, hi) = trim_bounds(&v);
            match read_decimal(&v, lo, hi) {
                Some(x) => {
                    if x < 0 {
                        0
                    } else if x > u64::MAX as i128 {
                        u64::MAX
                    } else {
                        x as u64
                    }
                },
                None => 0,
            }
        },
    }
}

/// A duration in microseconds rounded to the nearest millisecond.
pub fn micros_to_millis(us: u64) -> (ms: u64)
    ensures
        ms == round_half_up(us as int, 1000),
{
    div_round_half_up(us as u128, 1000) as u64
}

/// Whether a file has an audio stream: the probe ran and listed at least one.
pub fn video_has_audio(listing: Option<&Vec<u8>>) -> (audio: bool)
    ensures
        audio == match listing {
            Some(bytes) => bytes@.len() > 0,
            None => false,
        },
{
    match listing {
        Some(bytes) => bytes.len() > 0,
        None => false,
    }
}

/// The share of the window that is done when the toolchain has reached
/// `current_us` microseconds, in hundredths of a percent, between 0 and
/// 10000.
pub open spec fn progress_share(current_us: int, timings: TimingsModel) -> int {
    let share = current_us * timings.fps * 10 / timings.duration;
    if current_us <= 0 {
        0
    } else if share > 10000 {
        10000
    } else {
        share
    }
}

/// Computes [`progress_share`].
pub fn progress_of_time(current_us: i128, timings: &ExportTimings) -> (share: u32)
    ensures
        share == progress_share(current_us as int, timings@),
        share <= 10000,
{
    let fps = timings.fps();
    let duration = timings.duration();
    if current_us <= 0 {
        0
    } else if current_us >= 0x1_0000_0000_0000_0000_0000 {
        assert(current_us * fps * 10 / (duration as int) > 10000) by (nonlinear_arith)
            requires
                current_us >= 0x1_0000_0000_0000_0000_0000,
                fps >= 1,
                1000 <= duration <= 0x4_0000_0000_0000_0000,
        ;
        10000
    } else {
        assert(0 <= current_us * fps * 10 <= 0x1_0000_0000_0000_0000_0000 * 0x8000_0000 * 10)
            by (nonlinear_arith)
            requires
                0 < current_us < 0x1_0000_0000_0000_0000_0000,
                0 < fps <= 0x8000_0000,
        ;
        let share = (current_us * (fps as i128) * 10) / (duration as i128);
        if share > 10000 {
            10000
        } else {
            share as u32
        }
    }
}

} // verus!
