//! Turning a stream of decode events into display intervals.
//!
//! Times are signed counts of microseconds. The builder keeps one event of
//! lookahead: an event is resolved when the one after it (or the end of the
//! stream) is known.

use crate::compositor::{composable, composes_to, composite, Canvas, CompositeFrame, PaletteRect};
use vstd::prelude::*;

verus! {

/// Microseconds in one second; also the display time given to the last
/// bitmap of a stream when nothing says when it ends.
pub const MICROS_PER_SECOND: i64 = 1_000_000;

/// Display times reported by the decoder for one event.
#[derive(Clone, Copy, Debug, PartialEq, Eq, Structural)]
pub struct DisplaySpan {
    pub start: i64,
    pub end: i64,
}

/// One timestamped unit from the frame source: rectangles to show, or a
/// clear signal when `rects` is absent.
#[derive(Clone, Debug)]
pub struct DecodeEvent {
    pub timestamp: i64,
    pub display: Option<DisplaySpan>,
    pub rects: Option<Vec<PaletteRect>>,
}

/// Optional clipping `[start, end)` applied to the whole timeline.
#[derive(Clone, Copy, Debug, PartialEq, Eq, Structural)]
pub struct TrimWindow {
    pub start: Option<i64>,
    pub end: Option<i64>,
}

/// What the builder needs to know about the stream as a whole.
#[derive(Clone, Copy, Debug, PartialEq, Eq, Structural)]
pub struct TimelineConfig {
    /// Start offset of the stream, subtracted from every time.
    pub start_offset: i64,
    pub window: TrimWindow,
    pub canvas: Canvas,
}

/// A resolved interval whose image has not been stored yet.
#[derive(Clone, Debug)]
pub struct PendingInterval {
    pub start: i64,
    pub end: i64,
    pub frame: CompositeFrame,
}

/// A finalized interval: when an image is shown, where, and under which
/// file name it was stored.
#[derive(Clone, Debug)]
pub struct DisplayInterval {
    pub start: i64,
    pub end: i64,
    pub x: i32,
    pub y: i32,
    pub width: i32,
    pub height: i32,
    pub image: String,
}

/// What resolving one event asks for.
#[derive(Clone, Debug)]
pub enum Resolution {
    /// Nothing to do.
    Skip,
    /// End the most recent interval at this time.
    Close(i64),
    /// A new interval, to be committed once its image is stored.
    Show(PendingInterval),
}

/// The decisions of [`Resolution`] without the raster.
pub enum Decision {
    Skip,
    Close(i64),
    Show(i64, i64),
}

/// Where the builder stands.
#[derive(Clone, Copy, Debug, PartialEq, Eq, Structural)]
pub enum Phase {
    /// No event seen yet.
    Empty,
    /// Holding an event that waits for its successor.
    Running,
    /// The stream has ended and every event was resolved.
    Done,
}

/// `t` limited to the range of an `i64`.
pub open spec fn clamp_time(t: int) -> i64 {
    if t < i64::MIN {
        i64::MIN
    } else if t > i64::MAX {
        i64::MAX
    } else {
        t as i64
    }
}

/// Saturating difference of two times.
pub fn time_sub(a: i64, b: i64) -> (d: i64)
    ensures
        d == clamp_time(a - b),
{
    let wide: i128 = a as i128 - b as i128;
    if wide < i64::MIN as i128 {
        i64::MIN
    } else if wide > i64::MAX as i128 {
        i64::MAX
    } else {
        wide as i64
    }
}

/// A time of the stream measured from the stream's start offset, so that
/// the start of the stream is time zero.
pub fn adjust_timestamp(timestamp: i64, start_time: i64) -> (adjusted: i64)
    ensures
        adjusted == clamp_time(timestamp - start_time),
{
    time_sub(timestamp, start_time)
}

/// Saturating sum of two times.
pub fn time_add(a: i64, b: i64) -> (d: i64)
    ensures
        d == clamp_time(a + b),
{
    let wide: i128 = a as i128 + b as i128;
    if wide < i64::MIN as i128 {
        i64::MIN
    } else if wide > i64::MAX as i128 {
        i64::MAX
    } else {
        wide as i64
    }
}

impl DecodeEvent {
    /// A clear event carries no rectangles.
    pub open spec fn is_clear(&self) -> bool {
        self.rects is None
    }

    /// The decoder reported display times, and the end lies after the start.
    pub open spec fn has_valid_span(&self) -> bool {
        self.display matches Some(span) && span.end > span.start
    }

    /// When the event starts: the reported start where the reported span is
    /// valid, else the presentation timestamp.
    pub open spec fn effective_start(&self) -> i64 {
        if self.has_valid_span() {
            self.display->0.start
        } else {
            self.timestamp
        }
    }

    /// When the event ends, given the event that follows it: the reported
    /// end where the reported span is valid; else the start of a following
    /// show event or the timestamp of a following clear event; else one
    /// second after its own start.
    pub open spec fn effective_end(&self, next: Option<DecodeEvent>) -> i64 {
        if self.has_valid_span() {
            self.display->0.end
        } else {
            match next {
                Some(following) => if following.is_clear() {
                    following.timestamp
                } else {
                    following.effective_start()
                },
                None => clamp_time(self.effective_start() + MICROS_PER_SECOND),
            }
        }
    }

    /// Executable form of [`Self::effective_start`].
    pub fn start_time(&self) -> (t: i64)
        ensures
            t == self.effective_start(),
    {
        match self.display {
            Some(span) => if span.end > span.start {
                span.start
            } else {
                self.timestamp
            },
            None => self.timestamp,
        }
    }

    /// Executable form of [`Self::effective_end`].
    pub fn end_time(&self, next: Option<&DecodeEvent>) -> (t: i64)
        ensures
            t == self.effective_end(
                match next {
                    Some(following) => Some(*following),
                    None => None,
                },
            ),
    {
        match self.display {
            Some(span) => {
                if span.end > span.start {
                    return span.end;
                }
            },
            None => {},
        }
        match next {
            Some(following) => {
                if following.rects.is_none() {
                    following.timestamp
                } else {
                    following.start_time()
                }
            },
            None => time_add(self.start_time(), MICROS_PER_SECOND),
        }
    }
}

impl TrimWindow {
    /// A window that clips nothing.
    pub fn unbounded() -> (w: TrimWindow)
        ensures
            w.start is None,
            w.end is None,
    {
        TrimWindow { start: None, end: None }
    }

    /// Whether an interval starting at `start` lies outside the window: at
    /// or past the window's end, or before its start.
    pub open spec fn drops(&self, start: i64) -> bool {
        ||| (self.end matches Some(e) && start >= e)
        ||| (self.start matches Some(s) && start < s)
    }

    /// `t`, no later than the window's end.
    pub open spec fn clip_end(&self, t: i64) -> i64 {
        match self.end {
            Some(e) => if t > e {
                e
            } else {
                t
            },
            None => t,
        }
    }

    /// `t`, no earlier than the window's start.
    pub open spec fn clip_start(&self, t: i64) -> i64 {
        match self.start {
            Some(s) => if t < s {
                s
            } else {
                t
            },
            None => t,
        }
    }

    /// `t` measured from the window's start, where one is set.
    pub open spec fn rebase(&self, t: i64) -> i64 {
        match self.start {
            Some(s) => clamp_time(t - s),
            None => t,
        }
    }

    /// The interval `[start, end)` as the window lets it through: dropped
    /// where [`Self::drops`] says so, else clipped at the window's end and
    /// measured from the window's start; dropped as well where nothing is
    /// left of it.
    pub open spec fn trimmed(&self, start: i64, end: i64) -> Option<(i64, i64)> {
        if self.drops(start) {
            None
        } else {
            let s = self.rebase(start);
            let e = self.rebase(self.clip_end(end));
            if s >= e {
                None
            } else {
                Some((s, e))
            }
        }
    }

    /// The time at which a clear event at `t` ends the interval before it:
    /// `t` clipped into the window and measured from the window's start.
    pub open spec fn closing_time(&self, t: i64) -> i64 {
        self.rebase(self.clip_start(self.clip_end(t)))
    }

    fn rebase_exec(&self, t: i64) -> (r: i64)
        ensures
            r == self.rebase(t),
    {
        match self.start {
            Some(s) => time_sub(t, s),
            None => t,
        }
    }

    fn clip_end_exec(&self, t: i64) -> (r: i64)
        ensures
            r == self.clip_end(t),
    {
        match self.end {
            Some(e) => if t > e {
                e
            } else {
                t
            },
            None => t,
        }
    }

    /// Applies the window to the interval `[start, end)`.
    pub fn trim(&self, start: i64, end: i64) -> (out: Option<(i64, i64)>)
        ensures
            out == self.trimmed(start, end),
    {
        match self.end {
            Some(e) => {
                if start >= e {
                    return None;
                }
            },
            None => {},
        }
        match self.start {
            Some(s) => {
                if start < s {
                    return None;
                }
            },
            None => {},
        }
        let s = self.rebase_exec(start);
        let e = self.rebase_exec(self.clip_end_exec(end));
        if s >= e {
            None
        } else {
            Some((s, e))
        }
    }

    /// The time at which a clear event at `t` ends the interval before it.
    pub fn close_at(&self, t: i64) -> (out: i64)
        ensures
            out == self.closing_time(t),
    {
        let upper = self.clip_end_exec(t);
        let lower = match self.start {
            Some(s) => if upper < s {
                s
            } else {
                upper
            },
            None => upper,
        };
        self.rebase_exec(lower)
    }
}

/// What resolving `current` decides, given its successor.
///
/// A clear event with a non-zero timestamp closes the latest interval at
/// its own time, taken relative to the stream start and the window. A show
/// event whose rectangles give no frame is skipped. Any other show event
/// gets its effective times, taken relative to the stream start, and is
/// shown as far as the window lets it through.
pub open spec fn decide(current: DecodeEvent, next: Option<DecodeEvent>, config: TimelineConfig)
    -> Decision {
    match current.rects {
        None => if current.timestamp != 0 {
            Decision::Close(
                config.window.closing_time(clamp_time(current.timestamp - config.start_offset)),
            )
        } else {
            Decision::Skip
        },
        Some(rects) => if !composable(rects@, config.canvas) {
            Decision::Skip
        } else {
            let start = clamp_time(current.effective_start() - config.start_offset);
            let end = clamp_time(current.effective_end(next) - config.start_offset);
            match config.window.trimmed(start, end) {
                Some((s, e)) => Decision::Show(s, e),
                None => Decision::Skip,
            }
        },
    }
}

impl Resolution {
    /// The decision that this resolution carries.
    pub open spec fn decision(&self) -> Decision {
        match *self {
            Resolution::Skip => Decision::Skip,
            Resolution::Close(t) => Decision::Close(t),
            Resolution::Show(pending) => Decision::Show(pending.start, pending.end),
        }
    }
}

/// The `Option` of a borrowed event as an `Option` of the event.
pub open spec fn owned(next: Option<&DecodeEvent>) -> Option<DecodeEvent> {
    match next {
        Some(following) => Some(*following),
        None => None,
    }
}

/// Resolves `current`, given its successor (`None` at the end of the
/// stream): composites its rectangles and works out its interval.
pub fn resolve(current: &DecodeEvent, next: Option<&DecodeEvent>, config: &TimelineConfig) -> (out:
    Resolution)
    ensures
        out.decision() == decide(*current, owned(next), *config),
        out matches Resolution::Show(pending) ==> composes_to(
            current.rects->0@,
            pending.frame,
        ),
{
    match &current.rects {
        None => {
            if current.timestamp != 0 {
                let t = adjust_timestamp(current.timestamp, config.start_offset);
                Resolution::Close(config.window.close_at(t))
            } else {
                Resolution::Skip
            }
        },
        Some(rects) => {
            match composite(rects, &config.canvas) {
                None => Resolution::Skip,
                Some(frame) => {
                    let start = adjust_timestamp(current.start_time(), config.start_offset);
                    let end = adjust_timestamp(current.end_time(next), config.start_offset);
                    match config.window.trim(start, end) {
                        Some((s, e)) => Resolution::Show(PendingInterval { start: s, end: e, frame }),
                        None => Resolution::Skip,
                    }
                },
            }
        },
    }
}

/// The builder's state as contracts see it.
pub struct TimelineState {
    pub config: TimelineConfig,
    pub phase: Phase,
    /// The event that waits for its successor, while running.
    pub current: Option<DecodeEvent>,
    /// The intervals committed so far, in order.
    pub intervals: Seq<DisplayInterval>,
}

/// `intervals` with the end of the last one set to `t`; unchanged where
/// there is none.
pub open spec fn close_last(intervals: Seq<DisplayInterval>, t: i64) -> Seq<DisplayInterval> {
    if intervals.len() == 0 {
        intervals
    } else {
        intervals.update(
            intervals.len() - 1,
            DisplayInterval {
                start: intervals.last().start,
                end: t,
                x: intervals.last().x,
                y: intervals.last().y,
                width: intervals.last().width,
                height: intervals.last().height,
                image: intervals.last().image,
            },
        )
    }
}

/// The phase after an event, or the end of the stream, was pulled.
pub open spec fn phase_after(pulled: Option<DecodeEvent>) -> Phase {
    if pulled is Some {
        Phase::Running
    } else {
        Phase::Done
    }
}

/// The state after `pulled` came from the frame source (`None` at the end
/// of the stream).
///
/// The first event only fills the lookahead. From then on the held event is
/// resolved against `pulled`, a clear event closes the latest interval, and
/// `pulled` takes the held event's place. Once the stream has ended nothing
/// changes any more.
pub open spec fn state_after(state: TimelineState, pulled: Option<DecodeEvent>) -> TimelineState {
    match state.phase {
        Phase::Done => state,
        Phase::Empty => TimelineState {
            config: state.config,
            phase: phase_after(pulled),
            current: pulled,
            intervals: state.intervals,
        },
        Phase::Running => TimelineState {
            config: state.config,
            phase: phase_after(pulled),
            current: pulled,
            intervals: match decide(state.current->0, pulled, state.config) {
                Decision::Close(t) => close_last(state.intervals, t),
                _ => state.intervals,
            },
        },
    }
}

/// The times of the interval that the step from `state` on `pulled` asks
/// to store, if it asks for one.
pub open spec fn pending_after(state: TimelineState, pulled: Option<DecodeEvent>) -> Option<
    (i64, i64),
> {
    match state.phase {
        Phase::Running => match decide(state.current->0, pulled, state.config) {
            Decision::Show(s, e) => Some((s, e)),
            _ => None,
        },
        _ => None,
    }
}

/// The finalized form of a pending interval stored under the name `image`.
pub open spec fn finalized(pending: PendingInterval, image: String) -> DisplayInterval {
    DisplayInterval {
        start: pending.start,
        end: pending.end,
        x: pending.frame.x,
        y: pending.frame.y,
        width: pending.frame.bitmap.width,
        height: pending.frame.bitmap.height,
        image,
    }
}

/// The lookahead slot of the builder.
enum Lookahead {
    Empty,
    Holding(DecodeEvent),
    Done,
}

/// The timeline builder: a one-event lookahead over the stream of decode
/// events and the list of intervals committed so far.
pub struct TimelineBuilder {
    config: TimelineConfig,
    lookahead: Lookahead,
    intervals: Vec<DisplayInterval>,
}

impl View for TimelineBuilder {
    type V = TimelineState;

    closed spec fn view(&self) -> TimelineState {
        TimelineState {
            config: self.config,
            phase: match self.lookahead {
                Lookahead::Empty => Phase::Empty,
                Lookahead::Holding(_) => Phase::Running,
                Lookahead::Done => Phase::Done,
            },
            current: match self.lookahead {
                Lookahead::Holding(event) => Some(event),
                _ => None,
            },
            intervals: self.intervals@,
        }
    }
}

impl TimelineBuilder {
    /// A builder that has seen no event.
    pub fn new(config: TimelineConfig) -> (builder: TimelineBuilder)
        ensures
            builder@.config == config,
            builder@.phase is Empty,
            builder@.current is None,
            builder@.intervals.len() == 0,
    {
        TimelineBuilder { config, lookahead: Lookahead::Empty, intervals: Vec::new() }
    }

    /// An event is held exactly while the builder is running.
    pub proof fn lemma_holds_event_while_running(&self)
        ensures
            self@.phase is Running <==> self@.current is Some,
    {
    }

    /// Where the builder stands.
    pub fn phase(&self) -> (phase: Phase)
        ensures
            phase == self@.phase,
    {
        match self.lookahead {
            Lookahead::Empty => Phase::Empty,
            Lookahead::Holding(_) => Phase::Running,
            Lookahead::Done => Phase::Done,
        }
    }

    /// Whether the stream has ended and every event was resolved.
    pub fn is_done(&self) -> (done: bool)
        ensures
            done == (self@.phase is Done),
    {
        match self.lookahead {
            Lookahead::Done => true,
            _ => false,
        }
    }

    /// The number of intervals committed so far, which is the sequence
    /// index of the next image.
    pub fn next_index(&self) -> (index: usize)
        ensures
            index == self@.intervals.len(),
    {
        self.intervals.len()
    }

    /// The intervals committed so far.
    pub fn intervals(&self) -> (intervals: &Vec<DisplayInterval>)
        ensures
            intervals@ == self@.intervals,
    {
        &self.intervals
    }

    /// Ends the builder's work and hands out the intervals.
    pub fn finish(self) -> (intervals: Vec<DisplayInterval>)
        ensures
            intervals@ == self@.intervals,
    {
        self.intervals
    }

    /// Sets the end of the latest interval, if there is one.
    fn close_latest(&mut self, t: i64)
        ensures
            final(self).config == old(self).config,
            final(self).lookahead == old(self).lookahead,
            final(self).intervals@ == close_last(old(self).intervals@, t),
    {
        match self.intervals.pop() {
            Some(last) => {
                self.intervals.push(
                    DisplayInterval {
                        start: last.start,
                        end: t,
                        x: last.x,
                        y: last.y,
                        width: last.width,
                        height: last.height,
                        image: last.image,
                    },
                );
                assert(self.intervals@ == close_last(old(self).intervals@, t));
            },
            None => {},
        }
    }

    /// Takes the next event pulled from the frame source, or `None` at the
    /// end of the stream, and resolves the event held so far against it.
    ///
    /// Returns the interval to store where the held event is shown; the
    /// caller stores its image and then calls [`Self::commit`].
    pub fn advance(&mut self, pulled: Option<DecodeEvent>) -> (out: Option<PendingInterval>)
        ensures
            final(self)@ == state_after(old(self)@, pulled),
            match pending_after(old(self)@, pulled) {
                Some((s, e)) => out matches Some(pending) && pending.start == s && pending.end == e
                    && composes_to(old(self)@.current->0.rects->0@, pending.frame),
                None => out is None,
            },
    {
        let mut slot = Lookahead::Done;
        std::mem::swap(&mut self.lookahead, &mut slot);
        match slot {
            Lookahead::Done => None,
            Lookahead::Empty => {
                self.lookahead = match pulled {
                    Some(event) => Lookahead::Holding(event),
                    None => Lookahead::Done,
                };
                None
            },
            Lookahead::Holding(held) => {
                let following = pulled.as_ref();
                assert(owned(following) == pulled);
                let resolution = resolve(&held, following, &self.config);
                self.lookahead = match pulled {
                    Some(event) => Lookahead::Holding(event),
                    None => Lookahead::Done,
                };
                match resolution {
                    Resolution::Skip => None,
                    Resolution::Close(t) => {
                        self.close_latest(t);
                        None
                    },
                    Resolution::Show(pending) => Some(pending),
                }
            },
        }
    }

    /// Appends the interval whose image was stored under the name `image`.
    pub fn commit(&mut self, pending: &PendingInterval, image: String)
        ensures
            final(self)@.config == old(self)@.config,
            final(self)@.phase == old(self)@.phase,
            final(self)@.current == old(self)@.current,
            final(self)@.intervals == old(self)@.intervals.push(finalized(*pending, image)),
    {
        self.intervals.push(
            DisplayInterval {
                start: pending.start,
                end: pending.end,
                x: pending.frame.x,
                y: pending.frame.y,
                width: pending.frame.bitmap.width,
                height: pending.frame.bitmap.height,
                image,
            },
        );
    }
}

/// Whatever passes a window is a non-empty interval that ends no later
/// than the window does and, under a window with a start, begins at or
/// after time zero.
pub proof fn lemma_trimmed_within_window(window: TrimWindow, start: i64, end: i64)
    ensures
        window.trimmed(start, end) matches Some((s, e)) ==> {
            &&& s < e
            &&& (window.end matches Some(limit) ==> e <= window.rebase(limit))
            &&& (window.start is Some ==> s >= 0)
            &&& (window.start is None ==> s == start)
        },
{
}

/// An interval that starts at or after the window's end, or that lies
/// entirely before the window's start, is dropped.
pub proof fn lemma_outside_window_dropped(window: TrimWindow, start: i64, end: i64)
    requires
        start < end,
        (window.end matches Some(e) && start >= e) || (window.start matches Some(s) && end <= s),
    ensures
        window.trimmed(start, end) is None,
{
}

/// An interval inside the window is kept whole and measured from the
/// window's start.
pub proof fn lemma_inside_window_rebased(window: TrimWindow, start: i64, end: i64)
    requires
        start < end,
        window.start matches Some(s) ==> s <= start && start - s <= i64::MAX && end - s
            <= i64::MAX,
        window.end matches Some(e) ==> end <= e,
    ensures
        window.trimmed(start, end) == Some(
            (
                (start - (if window.start is Some {
                    window.start->0
                } else {
                    0
                })) as i64,
                (end - (if window.start is Some {
                    window.start->0
                } else {
                    0
                })) as i64,
            ),
        ),
{
}

} // verus!
