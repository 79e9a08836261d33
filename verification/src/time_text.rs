//! Times written by a user: seconds with decimals, `HH:MM:SS` or `MM:SS`,
//! read as microseconds.

use crate::text::{
    all_digits_in, digit_value, digits_value_in, find_char, index_of, is_digit, parse_trimmed_i32,
    trimmed, trimmed_chars, trimmed_i32_in,
};
use vstd::prelude::*;
use vstd::string::StringExecFns;

verus! {

/// Why a text is not a time.
#[derive(Clone, Copy, Debug, PartialEq, Eq, Structural)]
pub enum TimeParseError {
    /// Neither a number of seconds nor a clock time.
    InvalidFormat,
    /// The part after the decimal point of a clock time is not made of
    /// digits.
    InvalidMilliseconds,
    /// A text with two colons does not have three fields before its
    /// decimal point.
    NeedsThreeFields,
    /// A text with one colon does not have two fields before its decimal
    /// point.
    NeedsTwoFields,
    InvalidHours,
    InvalidMinutes,
    InvalidSeconds,
    /// The time does not fit 64 bits of microseconds.
    OutOfRange,
}

/// How many of the first `n` characters are `c`.
pub open spec fn count_char(s: Seq<char>, c: char, n: int) -> int
    decreases n,
{
    if n <= 0 {
        0
    } else {
        count_char(s, c, n - 1) + if s[n - 1] == c {
            1int
        } else {
            0int
        }
    }
}

/// Digit `k` of the decimals in `[from, to)`, zero past their end.
pub open spec fn fraction_digit(s: Seq<char>, from: int, to: int, k: int) -> int {
    if from + k < to {
        digit_value(s[from + k])
    } else {
        0
    }
}

/// The microseconds that the decimals in `[from, to)` stand for; decimals
/// past the sixth are dropped.
pub open spec fn fraction_micros(s: Seq<char>, from: int, to: int) -> int {
    fraction_digit(s, from, to, 0) * 100_000 + fraction_digit(s, from, to, 1) * 10_000
        + fraction_digit(s, from, to, 2) * 1_000 + fraction_digit(s, from, to, 3) * 100
        + fraction_digit(s, from, to, 4) * 10 + fraction_digit(s, from, to, 5)
}

/// The seconds of `HH:MM:SS` written in `[0, stop)`.
pub open spec fn hhmmss_seconds(s: Seq<char>, stop: int) -> Result<int, TimeParseError> {
    let first = index_of(s, ':', 0);
    let second = index_of(s, ':', first + 1);
    if first >= stop || second >= stop || index_of(s, ':', second + 1) < stop {
        Err(TimeParseError::NeedsThreeFields)
    } else if trimmed_i32_in(s, 0, first) is None {
        Err(TimeParseError::InvalidHours)
    } else if trimmed_i32_in(s, first + 1, second) is None {
        Err(TimeParseError::InvalidMinutes)
    } else if trimmed_i32_in(s, second + 1, stop) is None {
        Err(TimeParseError::InvalidSeconds)
    } else {
        Ok(
            trimmed_i32_in(s, 0, first)->0 * 3600 + trimmed_i32_in(s, first + 1, second)->0 * 60
                + trimmed_i32_in(s, second + 1, stop)->0,
        )
    }
}

/// The seconds of `MM:SS` written in `[0, stop)`.
pub open spec fn mmss_seconds(s: Seq<char>, stop: int) -> Result<int, TimeParseError> {
    let first = index_of(s, ':', 0);
    if first >= stop || index_of(s, ':', first + 1) < stop {
        Err(TimeParseError::NeedsTwoFields)
    } else if trimmed_i32_in(s, 0, first) is None {
        Err(TimeParseError::InvalidMinutes)
    } else if trimmed_i32_in(s, first + 1, stop) is None {
        Err(TimeParseError::InvalidSeconds)
    } else {
        Ok(trimmed_i32_in(s, 0, first)->0 * 60 + trimmed_i32_in(s, first + 1, stop)->0)
    }
}

/// The microseconds of a clock time with `colons` colons: the fields
/// before the first decimal point, and the decimals after it.
pub open spec fn clock_micros(s: Seq<char>, colons: int) -> Result<i64, TimeParseError> {
    let dot = index_of(s, '.', 0);
    if dot < s.len() && !all_digits_in(s, dot + 1, s.len() as int) {
        Err(TimeParseError::InvalidMilliseconds)
    } else {
        match (if colons == 2 {
            hhmmss_seconds(s, dot)
        } else {
            mmss_seconds(s, dot)
        }) {
            Err(e) => Err(e),
            Ok(seconds) => Ok(
                (seconds * 1_000_000 + (if dot < s.len() {
                    fraction_micros(s, dot + 1, s.len() as int)
                } else {
                    0
                })) as i64,
            ),
        }
    }
}

/// The microseconds of a number of seconds: an optional sign, digits, and
/// optionally a decimal point with more digits; at least one digit in all.
pub open spec fn seconds_micros(s: Seq<char>) -> Result<i64, TimeParseError> {
    let negative = s.len() > 0 && s[0] == '-';
    let body: int = if s.len() > 0 && (s[0] == '-' || s[0] == '+') {
        1
    } else {
        0
    };
    let dot = index_of(s, '.', body);
    let decimals = if dot < s.len() {
        dot + 1
    } else {
        s.len() as int
    };
    let magnitude = digits_value_in(s, body, dot) * 1_000_000 + fraction_micros(
        s,
        decimals,
        s.len() as int,
    );
    if !all_digits_in(s, body, dot) || !all_digits_in(s, decimals, s.len() as int) || (dot <= body
        && decimals >= s.len()) {
        Err(TimeParseError::InvalidFormat)
    } else if magnitude > i64::MAX {
        Err(TimeParseError::OutOfRange)
    } else if negative {
        Ok((-magnitude) as i64)
    } else {
        Ok(magnitude as i64)
    }
}

/// The time that a text writes, in microseconds. A text with one or two
/// colons is a clock time; any other text is a number of seconds.
pub open spec fn time_value(text: Seq<char>) -> Result<i64, TimeParseError> {
    let s = trimmed(text);
    let colons = count_char(s, ':', s.len() as int);
    if colons == 2 || colons == 1 {
        clock_micros(s, colons)
    } else {
        seconds_micros(s)
    }
}

fn count_colons(chars: &Vec<char>) -> (count: usize)
    ensures
        count == count_char(chars@, ':', chars@.len() as int),
{
    let mut count: usize = 0;
    let mut i: usize = 0;
    while i < chars.len()
        invariant
            i <= chars@.len(),
            count <= i,
            count == count_char(chars@, ':', i as int),
        decreases chars@.len() - i,
    {
        if chars[i] == ':' {
            count += 1;
        }
        i += 1;
    }
    count
}

fn all_digits(chars: &Vec<char>, from: usize, to: usize) -> (ok: bool)
    requires
        from <= to <= chars@.len(),
    ensures
        ok == all_digits_in(chars@, from as int, to as int),
{
    let mut i: usize = from;
    while i < to
        invariant
            from <= i <= to <= chars@.len(),
            all_digits_in(chars@, from as int, i as int),
        decreases to - i,
    {
        let c = chars[i];
        if !('0' <= c && c <= '9') {
            assert(!is_digit(chars@[i as int]));
            return false;
        }
        i += 1;
    }
    true
}

fn fraction_digit_exec(chars: &Vec<char>, from: usize, to: usize, k: usize) -> (d: u64)
    requires
        from <= to <= chars@.len(),
        all_digits_in(chars@, from as int, to as int),
        k < 6,
    ensures
        d == fraction_digit(chars@, from as int, to as int, k as int),
        d <= 9,
{
    if to - from > k {
        let c = chars[from + k];
        assert(is_digit(chars@[from + k]));
        (c as u32 - 0x30) as u64
    } else {
        0
    }
}

fn fraction_micros_exec(chars: &Vec<char>, from: usize, to: usize) -> (micros: u64)
    requires
        from <= to <= chars@.len(),
        all_digits_in(chars@, from as int, to as int),
    ensures
        micros == fraction_micros(chars@, from as int, to as int),
        micros <= 999_999,
{
    fraction_digit_exec(chars, from, to, 0) * 100_000 + fraction_digit_exec(chars, from, to, 1)
        * 10_000 + fraction_digit_exec(chars, from, to, 2) * 1_000 + fraction_digit_exec(
        chars,
        from,
        to,
        3,
    ) * 100 + fraction_digit_exec(chars, from, to, 4) * 10 + fraction_digit_exec(chars, from, to, 5)
}

/// Reads `HH:MM:SS` in the first `stop` characters as seconds.
pub fn parse_hhmmss(chars: &Vec<char>, stop: usize) -> (seconds: Result<i64, TimeParseError>)
    requires
        stop <= chars@.len(),
    ensures
        match hhmmss_seconds(chars@, stop as int) {
            Ok(v) => seconds == Ok::<i64, TimeParseError>(v as i64) && i64::MIN <= v <= i64::MAX,
            Err(e) => seconds == Err::<i64, TimeParseError>(e),
        },
        seconds matches Ok(v) ==> -0x8000_0000 * 3661 <= v <= 0x8000_0000 * 3661,
{
    let first = find_char(chars, ':', 0);
    if first >= stop {
        return Err(TimeParseError::NeedsThreeFields);
    }
    let second = find_char(chars, ':', first + 1);
    if second >= stop {
        return Err(TimeParseError::NeedsThreeFields);
    }
    let third = find_char(chars, ':', second + 1);
    if third < stop {
        return Err(TimeParseError::NeedsThreeFields);
    }
    let hours = match parse_trimmed_i32(chars, 0, first) {
        Some(v) => v,
        None => {
            return Err(TimeParseError::InvalidHours);
        },
    };
    let minutes = match parse_trimmed_i32(chars, first + 1, second) {
        Some(v) => v,
        None => {
            return Err(TimeParseError::InvalidMinutes);
        },
    };
    let secs = match parse_trimmed_i32(chars, second + 1, stop) {
        Some(v) => v,
        None => {
            return Err(TimeParseError::InvalidSeconds);
        },
    };
    Ok(hours as i64 * 3600 + minutes as i64 * 60 + secs as i64)
}

/// Reads `MM:SS` in the first `stop` characters as seconds.
pub fn parse_mmss(chars: &Vec<char>, stop: usize) -> (seconds: Result<i64, TimeParseError>)
    requires
        stop <= chars@.len(),
    ensures
        match mmss_seconds(chars@, stop as int) {
            Ok(v) => seconds == Ok::<i64, TimeParseError>(v as i64) && i64::MIN <= v <= i64::MAX,
            Err(e) => seconds == Err::<i64, TimeParseError>(e),
        },
        seconds matches Ok(v) ==> -0x8000_0000 * 3661 <= v <= 0x8000_0000 * 3661,
{
    let first = find_char(chars, ':', 0);
    if first >= stop {
        return Err(TimeParseError::NeedsTwoFields);
    }
    let second = find_char(chars, ':', first + 1);
    if second < stop {
        return Err(TimeParseError::NeedsTwoFields);
    }
    let minutes = match parse_trimmed_i32(chars, 0, first) {
        Some(v) => v,
        None => {
            return Err(TimeParseError::InvalidMinutes);
        },
    };
    let secs = match parse_trimmed_i32(chars, first + 1, stop) {
        Some(v) => v,
        None => {
            return Err(TimeParseError::InvalidSeconds);
        },
    };
    Ok(minutes as i64 * 60 + secs as i64)
}

fn parse_clock(chars: &Vec<char>, colons: usize) -> (micros: Result<i64, TimeParseError>)
    requires
        colons == 1 || colons == 2,
    ensures
        micros == clock_micros(chars@, colons as int),
{
    let n: usize = chars.len();
    let dot = find_char(chars, '.', 0);
    if dot < n && !all_digits(chars, dot + 1, n) {
        return Err(TimeParseError::InvalidMilliseconds);
    }
    let fraction: u64 = if dot < n {
        fraction_micros_exec(chars, dot + 1, n)
    } else {
        0
    };
    let whole = if colons == 2 {
        parse_hhmmss(chars, dot)
    } else {
        parse_mmss(chars, dot)
    };
    match whole {
        Err(e) => Err(e),
        Ok(seconds) => Ok(seconds * 1_000_000 + fraction as i64),
    }
}

/// Reads the digits of `[from, to)`, which must all be digits, reporting
/// whatever exceeds `limit` as `limit + 1`.
fn capped_digits(chars: &Vec<char>, from: usize, to: usize, limit: u64) -> (value: u64)
    requires
        from <= to <= chars@.len(),
        all_digits_in(chars@, from as int, to as int),
        limit < 0x1000_0000_0000_0000,
    ensures
        digits_value_in(chars@, from as int, to as int) >= 0,
        value == if digits_value_in(chars@, from as int, to as int) > limit {
            limit + 1
        } else {
            digits_value_in(chars@, from as int, to as int)
        },
{
    let mut acc: u64 = 0;
    let mut i: usize = from;
    while i < to
        invariant
            from <= i <= to <= chars@.len(),
            limit < 0x1000_0000_0000_0000,
            all_digits_in(chars@, from as int, to as int),
            digits_value_in(chars@, from as int, i as int) >= 0,
            acc == if digits_value_in(chars@, from as int, i as int) > limit {
                limit + 1
            } else {
                digits_value_in(chars@, from as int, i as int)
            },
        decreases to - i,
    {
        let c = chars[i];
        assert(is_digit(chars@[i as int]));
        let d: u64 = (c as u32 - 0x30) as u64;
        let next: u64 = acc * 10 + d;
        acc = if next > limit {
            limit + 1
        } else {
            next
        };
        i += 1;
    }
    acc
}

fn parse_seconds(chars: &Vec<char>) -> (micros: Result<i64, TimeParseError>)
    ensures
        micros == seconds_micros(chars@),
{
    let n: usize = chars.len();
    let negative = n > 0 && chars[0] == '-';
    let body: usize = if n > 0 && (chars[0] == '-' || chars[0] == '+') {
        1
    } else {
        0
    };
    let dot = find_char(chars, '.', body);
    let decimals: usize = if dot < n {
        dot + 1
    } else {
        n
    };
    if !all_digits(chars, body, dot) || !all_digits(chars, decimals, n) || (dot <= body
        && decimals >= n) {
        return Err(TimeParseError::InvalidFormat);
    }
    let whole: u64 = capped_digits(chars, body, dot, 9_223_372_036_854);
    let fraction: u64 = fraction_micros_exec(chars, decimals, n);
    if whole > 9_223_372_036_854 {
        return Err(TimeParseError::OutOfRange);
    }
    let magnitude: u64 = whole * 1_000_000 + fraction;
    if magnitude > 0x7fff_ffff_ffff_ffff {
        return Err(TimeParseError::OutOfRange);
    }
    if negative {
        Ok(-(magnitude as i64))
    } else {
        Ok(magnitude as i64)
    }
}

/// Reads a time: seconds with optional decimals (`123.456`), `HH:MM:SS`
/// or `MM:SS`, the last two with optional decimals (`01:23:45.123`). The
/// result is in microseconds; decimals past the sixth are dropped.
pub fn parse_time_string(time_str: &str) -> (micros: Result<i64, TimeParseError>)
    ensures
        micros == time_value(time_str@),
{
    let chars = trimmed_chars(time_str);
    let colons = count_colons(&chars);
    if colons == 2 || colons == 1 {
        parse_clock(&chars, colons)
    } else {
        parse_seconds(&chars)
    }
}

impl TimeParseError {
    /// The text that tells a user what is wrong.
    pub open spec fn message_text(&self) -> Seq<char> {
        match *self {
            TimeParseError::InvalidFormat => "Invalid time format. Use seconds (e.g. 123.456) or HH:MM:SS.mmm (e.g. 01:23:45.123)"@,
            TimeParseError::InvalidMilliseconds => "invalid milliseconds"@,
            TimeParseError::NeedsThreeFields => "HH:MM:SS requires 3 numbers"@,
            TimeParseError::NeedsTwoFields => "MM:SS requires 2 numbers"@,
            TimeParseError::InvalidHours => "invalid hours"@,
            TimeParseError::InvalidMinutes => "invalid minutes"@,
            TimeParseError::InvalidSeconds => "invalid seconds"@,
            TimeParseError::OutOfRange => "time out of range"@,
        }
    }

    /// The text that tells a user what is wrong.
    pub fn message(&self) -> (text: String)
        ensures
            text@ == self.message_text(),
    {
        match self {
            TimeParseError::InvalidFormat => String::from_str(
                "Invalid time format. Use seconds (e.g. 123.456) or HH:MM:SS.mmm (e.g. 01:23:45.123)",
            ),
            TimeParseError::InvalidMilliseconds => String::from_str("invalid milliseconds"),
            TimeParseError::NeedsThreeFields => String::from_str("HH:MM:SS requires 3 numbers"),
            TimeParseError::NeedsTwoFields => String::from_str("MM:SS requires 2 numbers"),
            TimeParseError::InvalidHours => String::from_str("invalid hours"),
            TimeParseError::InvalidMinutes => String::from_str("invalid minutes"),
            TimeParseError::InvalidSeconds => String::from_str("invalid seconds"),
            TimeParseError::OutOfRange => String::from_str("time out of range"),
        }
    }
}

} // verus!
