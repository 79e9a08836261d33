//! What a frame source reports about a stream and its packets, turned into
//! the values that the timeline and the decoder work on.

use crate::compositor::PaletteRect;
use crate::options::{OptionMap, Pair};
use crate::text::{ends_with, ends_with_at, str_chars, str_equal};
use crate::timecode::FrameRate;
use crate::timeline::{clamp_time, time_add, DecodeEvent, DisplaySpan};
use vstd::prelude::*;
use vstd::string::StringExecFns;

verus! {

/// The presentation timestamp of a packet that has none.
pub const NO_PTS: i64 = i64::MIN;

/// The display time of a subtitle that reports none, in milliseconds.
pub const NO_DISPLAY_TIME: u32 = 0xFFFF_FFFF;

/// `v` without its sign.
pub open spec fn magnitude(v: int) -> int {
    if v < 0 {
        -v
    } else {
        v
    }
}

/// A presentation timestamp in units of `num / den` seconds, as
/// microseconds: rounded toward zero and limited to the range of an `i64`;
/// zero where there is no timestamp or the unit has no denominator.
pub open spec fn micros_of_pts(pts: i64, num: i32, den: i32) -> i64 {
    if pts == NO_PTS || den == 0 {
        0
    } else {
        let scaled = pts * num * 1_000_000;
        let whole = magnitude(scaled) / magnitude(den as int);
        clamp_time(
            if (scaled < 0) != (den < 0) {
                -whole
            } else {
                whole
            },
        )
    }
}

/// Turns a presentation timestamp into microseconds.
pub fn pts_to_micros(pts: i64, num: i32, den: i32) -> (t: i64)
    ensures
        t == micros_of_pts(pts, num, den),
{
    if pts == NO_PTS || den == 0 {
        return 0;
    }
    assert(-0x4000_0000_0000_0000_0000_0000 <= pts * num <= 0x4000_0000_0000_0000_0000_0000)
        by (nonlinear_arith)
        requires
            -0x8000_0000_0000_0000 <= pts <= 0x8000_0000_0000_0000,
            -0x8000_0000 <= num <= 0x8000_0000,
    ;
    let ticks: i128 = pts as i128 * num as i128;
    let scaled: i128 = ticks * 1_000_000;
    let n: u128 = if scaled < 0 {
        (-scaled) as u128
    } else {
        scaled as u128
    };
    let d: u128 = if den < 0 {
        (-(den as i64)) as u128
    } else {
        den as u128
    };
    let whole: u128 = n / d;
    if (scaled < 0) != (den < 0) {
        if whole > 0x8000_0000_0000_0000 {
            i64::MIN
        } else {
            (-(whole as i128)) as i64
        }
    } else {
        if whole > 0x7fff_ffff_ffff_ffff {
            i64::MAX
        } else {
            whole as i64
        }
    }
}

/// The start offset of a stream in microseconds; zero where the container
/// reports none.
pub fn stream_start_time(start: i64) -> (t: i64)
    ensures
        t == if start == NO_PTS {
            0
        } else {
            start
        },
{
    if start == NO_PTS {
        0
    } else {
        start
    }
}

/// Whether `pattern` occurs somewhere in `s`.
pub open spec fn contains_text(s: Seq<char>, pattern: Seq<char>) -> bool {
    exists|n: int| ends_with_at(s, n, pattern)
}

/// Whether the name of a decoder says that it decodes ARIB captions.
pub open spec fn names_arib(name: Seq<char>) -> bool {
    contains_text(name, "arib"@) || contains_text(name, "libaribcaption"@)
}

fn contains(chars: &Vec<char>, pattern: &str) -> (found: bool)
    ensures
        found == contains_text(chars@, pattern@),
{
    let len: usize = chars.len();
    let mut n: usize = 0;
    while n < len
        invariant
            n <= len,
            len == chars@.len(),
            forall|m: int| m < n ==> !ends_with_at(chars@, m, pattern@),
        decreases len - n,
    {
        if ends_with(chars, n, pattern) {
            return true;
        }
        n += 1;
    }
    ends_with(chars, len, pattern)
}

/// Whether the name of a decoder says that it decodes ARIB captions.
pub fn codec_name_has_arib(name: &str) -> (found: bool)
    ensures
        found == names_arib(name@),
{
    let chars = str_chars(name);
    contains(&chars, "arib") || contains(&chars, "libaribcaption")
}

/// The frame rate that a video stream reports, as numerator and
/// denominator: its average rate where that is positive, else its base
/// rate where that is positive.
pub open spec fn reported_rate(avg_num: i32, avg_den: i32, base_num: i32, base_den: i32) -> Option<
    (i32, i32),
> {
    if avg_num > 0 && avg_den > 0 {
        Some((avg_num, avg_den))
    } else if base_num > 0 && base_den > 0 {
        Some((base_num, base_den))
    } else {
        None
    }
}

/// The frame rate to write timecodes at: the rate that the video stream
/// reports, or 29.97 frames per second where it reports none. There is no
/// rate where the reported one rounds to zero frames per second.
pub fn video_frame_rate(avg_num: i32, avg_den: i32, base_num: i32, base_den: i32) -> (rate: Option<
    FrameRate,
>)
    ensures
        match reported_rate(avg_num, avg_den, base_num, base_den) {
            Some((n, d)) => {
                &&& rate is Some <==> 2 * n >= d
                &&& rate matches Some(r) ==> r.wf() && r.num() == n && r.den() == d
            },
            None => rate matches Some(r) && r.wf() && r.num() == 2997 && r.den() == 100,
        },
{
    if avg_num > 0 && avg_den > 0 {
        FrameRate::new(avg_num as u32, avg_den as u32)
    } else if base_num > 0 && base_den > 0 {
        FrameRate::new(base_num as u32, base_den as u32)
    } else {
        FrameRate::new(2997, 100)
    }
}

/// The time of an event in microseconds: that of its packet, or that of
/// the subtitle itself where the packet has none.
pub open spec fn event_timestamp(packet_pts: i64, subtitle_pts: i64, num: i32, den: i32) -> i64 {
    micros_of_pts(
        if packet_pts != NO_PTS {
            packet_pts
        } else {
            subtitle_pts
        },
        num,
        den,
    )
}

/// The display times of an event at `timestamp` whose subtitle reports
/// them in milliseconds from there; none where either is not reported.
pub open spec fn reported_span(timestamp: i64, start_ms: u32, end_ms: u32) -> Option<DisplaySpan> {
    if start_ms != NO_DISPLAY_TIME && end_ms != NO_DISPLAY_TIME {
        Some(
            DisplaySpan {
                start: clamp_time(timestamp + start_ms * 1000),
                end: clamp_time(timestamp + end_ms * 1000),
            },
        )
    } else {
        None
    }
}

/// Works out the display times that a subtitle reports.
pub fn display_span(timestamp: i64, start_ms: u32, end_ms: u32) -> (span: Option<DisplaySpan>)
    ensures
        span == reported_span(timestamp, start_ms, end_ms),
{
    if start_ms != NO_DISPLAY_TIME && end_ms != NO_DISPLAY_TIME {
        Some(
            DisplaySpan {
                start: time_add(timestamp, start_ms as i64 * 1000),
                end: time_add(timestamp, end_ms as i64 * 1000),
            },
        )
    } else {
        None
    }
}

/// The decode event for one decoded subtitle: its time, the display times
/// that it reports, and its rectangles (none for a clear signal).
pub fn decode_event(
    packet_pts: i64,
    subtitle_pts: i64,
    num: i32,
    den: i32,
    start_ms: u32,
    end_ms: u32,
    rects: Option<Vec<PaletteRect>>,
) -> (event: DecodeEvent)
    ensures
        event.timestamp == event_timestamp(packet_pts, subtitle_pts, num, den),
        event.display == reported_span(event.timestamp, start_ms, end_ms),
        event.rects == rects,
{
    let pts = if packet_pts != NO_PTS {
        packet_pts
    } else {
        subtitle_pts
    };
    let timestamp = pts_to_micros(pts, num, den);
    DecodeEvent { timestamp, display: display_span(timestamp, start_ms, end_ms), rects }
}

/// Whether the program itself sets this key for the decoder.
pub open spec fn is_routing_key(key: Seq<char>) -> bool {
    key == "sub_type"@ || key == "canvas_size"@
}

/// The first `n` assignments without those to routing keys.
pub open spec fn forwarded(pairs: Seq<Pair>, n: nat) -> Seq<Pair>
    decreases n,
{
    if n == 0 {
        Seq::empty()
    } else if is_routing_key(pairs[n - 1].0) {
        forwarded(pairs, (n - 1) as nat)
    } else {
        forwarded(pairs, (n - 1) as nat).push(pairs[n - 1])
    }
}

/// What the decoder is opened with: bitmap output, the canvas size that
/// the options hold, and then every assignment of the options to another
/// key, in order. Without a canvas size the decoder cannot be opened.
pub open spec fn decoder_pairs(opts: OptionMap) -> Option<Seq<Pair>> {
    if opts@.contains_key("canvas_size"@) {
        Some(
            seq![("sub_type"@, "bitmap"@), ("canvas_size"@, opts@["canvas_size"@])] + forwarded(
                opts.pairs(),
                opts.pairs().len(),
            ),
        )
    } else {
        None
    }
}

/// The texts of a list of assignments.
pub open spec fn pair_texts(list: Seq<(String, String)>) -> Seq<Pair> {
    Seq::new(list.len(), |i: int| (list[i].0@, list[i].1@))
}

/// Lists what the decoder is opened with.
pub fn decoder_assignments(opts: &OptionMap) -> (out: Option<Vec<(String, String)>>)
    ensures
        match decoder_pairs(*opts) {
            Some(pairs) => out matches Some(list) && pair_texts(list@) == pairs,
            None => out is None,
        },
{
    let canvas = match opts.get("canvas_size") {
        Some(size) => size.clone(),
        None => {
            return None;
        },
    };
    let mut list: Vec<(String, String)> = Vec::new();
    list.push((String::from_str("sub_type"), String::from_str("bitmap")));
    list.push((String::from_str("canvas_size"), canvas));
    let ghost head = pair_texts(list@);
    assert(head == seq![("sub_type"@, "bitmap"@), ("canvas_size"@, opts@["canvas_size"@])]);
    let count: usize = opts.assignment_count();
    let mut i: usize = 0;
    assert(head + forwarded(opts.pairs(), 0) == head);
    while i < count
        invariant
            i <= count,
            count == opts.pairs().len(),
            pair_texts(list@) == head + forwarded(opts.pairs(), i as nat),
        decreases count - i,
    {
        let (key, value) = opts.assignment(i);
        let ghost before = pair_texts(list@);
        if !(str_equal(key.as_str(), "sub_type") || str_equal(key.as_str(), "canvas_size")) {
            list.push((key.clone(), value.clone()));
            assert(pair_texts(list@) == before.push(opts.pairs()[i as int]));
            assert(head + forwarded(opts.pairs(), i as nat).push(opts.pairs()[i as int]) == (head
                + forwarded(opts.pairs(), i as nat)).push(opts.pairs()[i as int]));
        }
        i += 1;
    }
    Some(list)
}

} // verus!
