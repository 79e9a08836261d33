//! Frame-exact `HH:MM:SS:FF` timecodes and the display form of a frame rate.
//!
//! Times are counts of microseconds; a frame rate is a ratio of frames to
//! seconds, such as 30000/1001.

use crate::text::{decimal_digits, push_decimal, push_zero_padded, zero_padded};
use vstd::arithmetic::div_mod::{
    lemma_div_denominator, lemma_div_multiples_vanish_fancy, lemma_fundamental_div_mod,
    lemma_fundamental_div_mod_converse, lemma_mod_breakdown,
};
use vstd::prelude::*;
use vstd::string::StringExecFns;

verus! {

/// A frame rate `num / den` frames per second that rounds to at least one
/// frame per second.
#[derive(Clone, Copy, Debug)]
pub struct FrameRate {
    num: u32,
    den: u32,
}

/// The four fields of a timecode.
#[derive(Clone, Copy, Debug, PartialEq, Eq, Structural)]
pub struct Timecode {
    pub hours: u64,
    pub minutes: u32,
    pub seconds: u32,
    pub frames: u32,
}

/// `p / q` rounded to the nearest integer, halves upward; meant for
/// `p >= 0` and `q > 0`.
pub open spec fn round_div(p: int, q: int) -> int {
    (2 * p + q) / (2 * q)
}

/// A rounded quotient of a non-negative number is non-negative, at most
/// the number itself, and at least one as soon as the quotient reaches a
/// half.
pub proof fn lemma_round_div_bounds(p: int, q: int)
    requires
        0 <= p,
        1 <= q,
    ensures
        0 <= round_div(p, q) <= p,
        2 * p >= q ==> round_div(p, q) >= 1,
        p <= q * round_div(p, q) + q,
{
    let r = round_div(p, q);
    lemma_fundamental_div_mod(2 * p + q, 2 * q);
    vstd::arithmetic::div_mod::lemma_mod_pos_bound(2 * p + q, 2 * q);
    let m = (2 * p + q) % (2 * q);
    assert(0 <= r <= p && (2 * p >= q ==> r >= 1) && p <= q * r + q) by (nonlinear_arith)
        requires
            2 * p + q == (2 * q) * r + m,
            0 <= m < 2 * q,
            0 <= p,
            1 <= q,
    ;
}

impl FrameRate {
    #[verifier::type_invariant]
    spec fn valid(self) -> bool {
        self.wf()
    }

    /// The denominator is positive and the rate rounds to at least one
    /// frame per second. Every rate made by [`Self::new`] is well formed.
    pub closed spec fn wf(&self) -> bool {
        self.den > 0 && 2 * self.num >= self.den
    }

    /// Frames in `den()` seconds.
    pub closed spec fn num(&self) -> int {
        self.num as int
    }

    /// Seconds that `num()` frames take.
    pub closed spec fn den(&self) -> int {
        self.den as int
    }

    /// The rate rounded to whole frames per second.
    pub open spec fn nominal(&self) -> int {
        round_div(self.num(), self.den())
    }

    /// The rate in thousandths of a frame per second, rounded.
    pub open spec fn millis(&self) -> int {
        round_div(self.num() * 1000, self.den())
    }

    /// What well-formedness says of the numerator and the denominator.
    pub proof fn lemma_wf(&self)
        requires
            self.wf(),
        ensures
            self.den() > 0,
            2 * self.num() >= self.den(),
            0 <= self.num() <= u32::MAX,
            self.den() <= u32::MAX,
            1 <= self.nominal() <= u32::MAX,
    {
        lemma_round_div_bounds(self.num(), self.den());
    }

    /// The rate `num / den`, or nothing where `den` is zero or the rate
    /// rounds to zero frames per second.
    pub fn new(num: u32, den: u32) -> (rate: Option<FrameRate>)
        ensures
            rate is Some <==> (den > 0 && 2 * num >= den),
            rate matches Some(r) ==> r.wf() && r.num() == num && r.den() == den,
    {
        if den > 0 && 2 * (num as u64) >= den as u64 {
            Some(FrameRate { num, den })
        } else {
            None
        }
    }

    /// Frames in `denominator()` seconds.
    pub fn numerator(&self) -> (n: u32)
        ensures
            n == self.num(),
            self.wf(),
    {
        proof {
            use_type_invariant(self);
        }
        self.num
    }

    /// Seconds that `numerator()` frames take.
    pub fn denominator(&self) -> (d: u32)
        ensures
            d == self.den(),
    {
        self.den
    }

    /// The rate rounded to whole frames per second.
    pub fn frames_per_second(&self) -> (rate: u32)
        ensures
            rate == self.nominal(),
            rate >= 1,
    {
        proof {
            use_type_invariant(self);
            self.lemma_wf();
        }
        ((2 * self.num as u64 + self.den as u64) / (2 * self.den as u64)) as u32
    }
}

/// The number of frames shown up to `micros`: that many seconds times the
/// frame rate, rounded; a negative time counts as zero.
pub open spec fn total_frames(micros: int, fps: FrameRate) -> int {
    round_div(
        (if micros < 0 {
            0
        } else {
            micros
        }) * fps.num(),
        fps.den() * 1_000_000,
    )
}

/// The timecode of a frame count at a whole number of frames per second.
pub open spec fn timecode_of_frames(total: int, rate: int) -> Timecode {
    let whole_seconds = total / rate;
    Timecode {
        hours: (whole_seconds / 3600) as u64,
        minutes: ((whole_seconds / 60) % 60) as u32,
        seconds: (whole_seconds % 60) as u32,
        frames: (total % rate) as u32,
    }
}

/// The timecode at `micros` for the given frame rate.
pub open spec fn timecode_at(micros: int, fps: FrameRate) -> Timecode {
    timecode_of_frames(total_frames(micros, fps), fps.nominal())
}

/// `HH:MM:SS:FF`, each field in at least two digits.
pub open spec fn timecode_text(tc: Timecode) -> Seq<char> {
    zero_padded(tc.hours as nat, 2) + seq![':'] + zero_padded(tc.minutes as nat, 2) + seq![':']
        + zero_padded(tc.seconds as nat, 2) + seq![':'] + zero_padded(tc.frames as nat, 2)
}

/// Splitting a frame count by frames per hour, per minute and per second
/// in turn gives the same fields as splitting the whole seconds.
proof fn lemma_timecode_split(total: int, rate: int)
    requires
        0 <= total,
        1 <= rate,
    ensures
        rate * 3600 > 0,
        rate * 60 > 0,
        total / (rate * 3600) == (total / rate) / 3600,
        (total % (rate * 3600)) / (rate * 60) == ((total / rate) / 60) % 60,
        ((total % (rate * 3600)) % (rate * 60)) / rate == (total / rate) % 60,
        ((total % (rate * 3600)) % (rate * 60)) % rate == total % rate,
        0 <= total / rate,
{
    let whole = total / rate;
    let part = total % rate;
    lemma_fundamental_div_mod(total, rate);
    vstd::arithmetic::div_mod::lemma_div_pos_is_pos(total, rate);
    lemma_div_denominator(total, rate, 3600);
    lemma_mod_breakdown(total, rate, 3600);
    let in_hour = total % (rate * 3600);
    assert(in_hour == rate * (whole % 3600) + part);
    assert(0 <= in_hour) by (nonlinear_arith)
        requires
            in_hour == rate * (whole % 3600) + part,
            0 <= whole % 3600,
            0 <= part,
            1 <= rate,
    ;
    lemma_div_multiples_vanish_fancy(whole % 3600, part, rate);
    assert(in_hour / rate == whole % 3600);
    lemma_div_denominator(in_hour, rate, 60);
    assert(in_hour / (rate * 60) == (whole % 3600) / 60);
    lemma_mod_breakdown(in_hour, rate, 60);
    let in_minute = in_hour % (rate * 60);
    lemma_fundamental_div_mod_converse(in_hour, rate, whole % 3600, part);
    assert(in_minute == rate * ((whole % 3600) % 60) + part);
    lemma_div_multiples_vanish_fancy((whole % 3600) % 60, part, rate);
    lemma_fundamental_div_mod_converse(in_minute, rate, (whole % 3600) % 60, part);
}

/// The frame count of any time fits well inside 77 bits, and its hours fit
/// a `u64`.
proof fn lemma_total_frames_bound(t: int, num: int, den: int, total: int)
    requires
        0 <= t <= i64::MAX,
        0 <= num <= u32::MAX,
        1 <= den <= u32::MAX,
        total == (2 * (t * num) + den * 1_000_000) / (2 * (den * 1_000_000)),
    ensures
        0 <= total <= 39_614_081_257_132_168_796_772,
{
    let scale = den * 1_000_000;
    let top = 2 * (t * num) + scale;
    assert(0 <= t * num <= 0x7fff_ffff_ffff_ffff * 0xffff_ffff) by (nonlinear_arith)
        requires
            0 <= t <= 0x7fff_ffff_ffff_ffff,
            0 <= num <= 0xffff_ffff,
    ;
    lemma_fundamental_div_mod(top, 2 * scale);
    vstd::arithmetic::div_mod::lemma_div_pos_is_pos(top, 2 * scale);
    let bound: int = 39_614_081_257_132_168_796_772;
    assert(total <= bound) by (nonlinear_arith)
        requires
            top == (2 * scale) * total + top % (2 * scale),
            0 <= top % (2 * scale),
            top <= 2 * (0x7fff_ffff_ffff_ffff * 0xffff_ffff) + scale,
            scale >= 1_000_000,
            0 <= total,
            bound == 39_614_081_257_132_168_796_772,
    ;
}

/// The timecode fields at `micros`.
///
/// The frame count is split by frames per hour, per minute and per second;
/// a seconds or minutes field that reached 60 would be carried into the
/// next field.
pub fn timecode_fields(micros: i64, fps: &FrameRate) -> (tc: Timecode)
    ensures
        tc == timecode_at(micros as int, *fps),
        tc.minutes < 60,
        tc.seconds < 60,
        tc.frames < fps.nominal(),
{
    let t: u128 = if micros < 0 {
        0
    } else {
        micros as u128
    };
    let num: u128 = fps.numerator() as u128;
    proof {
        fps.lemma_wf();
    }
    let scale: u128 = fps.denominator() as u128 * 1_000_000;
    assert(t * num <= 0x7fff_ffff_ffff_ffff * 0xffff_ffff) by (nonlinear_arith)
        requires
            t <= 0x7fff_ffff_ffff_ffff,
            num <= 0xffff_ffff,
    ;
    let total: u128 = (2 * (t * num) + scale) / (2 * scale);
    let rate: u128 = fps.frames_per_second() as u128;
    proof {
        lemma_total_frames_bound(t as int, num as int, fps.den(), total as int);
        lemma_timecode_split(total as int, rate as int);
        assert(t as int * fps.num() == t * num);
        assert(total == total_frames(micros as int, *fps));
    }
    let frames_per_hour: u128 = rate * 3600;
    let frames_per_minute: u128 = rate * 60;
    let mut hours: u128 = total / frames_per_hour;
    let mut remaining: u128 = total % frames_per_hour;
    let mut minutes: u128 = remaining / frames_per_minute;
    remaining = remaining % frames_per_minute;
    let mut secs: u128 = remaining / rate;
    let frames: u128 = remaining % rate;
    if secs >= 60 {
        minutes = minutes + secs / 60;
        secs = secs % 60;
    }
    if minutes >= 60 {
        hours = hours + minutes / 60;
        minutes = minutes % 60;
    }
    Timecode {
        hours: hours as u64,
        minutes: minutes as u32,
        seconds: secs as u32,
        frames: frames as u32,
    }
}

/// Writes the four fields as `HH:MM:SS:FF`.
pub fn format_tc(hours: u64, minutes: u32, seconds: u32, frames: u32) -> (text: String)
    ensures
        text@ == timecode_text(Timecode { hours, minutes, seconds, frames }),
{
    let mut text = String::new();
    push_zero_padded(&mut text, hours as u128, 2);
    crate::text::push_char(&mut text, ':');
    push_zero_padded(&mut text, minutes as u128, 2);
    crate::text::push_char(&mut text, ':');
    push_zero_padded(&mut text, seconds as u128, 2);
    crate::text::push_char(&mut text, ':');
    push_zero_padded(&mut text, frames as u128, 2);
    assert(text@ == timecode_text(Timecode { hours, minutes, seconds, frames }));
    text
}

/// The timecode `HH:MM:SS:FF` of the time `micros`; a negative time counts
/// as zero.
pub fn time_to_tc(micros: i64, fps: &FrameRate) -> (text: String)
    ensures
        text@ == timecode_text(timecode_at(micros as int, *fps)),
{
    let tc = timecode_fields(micros, fps);
    format_tc(tc.hours, tc.minutes, tc.seconds, tc.frames)
}

/// The frames field of a timecode never reaches the frame rate, and the
/// minutes and seconds fields never reach 60: no carry is left over.
pub proof fn lemma_timecode_fields_in_range(micros: int, fps: FrameRate)
    requires
        fps.wf(),
    ensures
        0 <= timecode_at(micros, fps).frames <= fps.nominal() - 1,
        0 <= timecode_at(micros, fps).seconds <= 59,
        0 <= timecode_at(micros, fps).minutes <= 59,
{
    fps.lemma_wf();
    let rate = fps.nominal();
    let total = total_frames(micros, fps);
    lemma_fundamental_div_mod(total, rate);
}

/// A rate in thousandths written with three decimals.
pub open spec fn three_decimals(millis: nat) -> Seq<char> {
    decimal_digits(millis / 1000) + seq!['.'] + zero_padded(millis % 1000, 3)
}

/// The display form of a frame rate: three decimals, except that 29.970 is
/// written `29.97` and 24.000 is written `24`.
pub open spec fn frame_rate_text(fps: FrameRate) -> Seq<char> {
    if fps.millis() == 29970 {
        seq!['2', '9', '.', '9', '7']
    } else if fps.millis() == 24000 {
        seq!['2', '4']
    } else {
        three_decimals(fps.millis() as nat)
    }
}

/// Writes a frame rate for display.
pub fn format_fps(fps: &FrameRate) -> (text: String)
    ensures
        text@ == frame_rate_text(*fps),
{
    let num: u64 = fps.numerator() as u64;
    proof {
        fps.lemma_wf();
    }
    let den: u64 = fps.denominator() as u64;
    let millis: u64 = (2 * (num * 1000) + den) / (2 * den);
    let mut text = String::new();
    if millis == 29970 {
        proof {
            reveal_strlit("29.97");
        }
        text.append("29.97");
        assert(text@ == seq!['2', '9', '.', '9', '7']);
    } else if millis == 24000 {
        proof {
            reveal_strlit("24");
        }
        text.append("24");
        assert(text@ == seq!['2', '4']);
    } else {
        push_decimal(&mut text, (millis / 1000) as u128);
        crate::text::push_char(&mut text, '.');
        push_zero_padded(&mut text, (millis % 1000) as u128, 3);
        assert(text@ == three_decimals(millis as nat));
    }
    text
}

} // verus!
