use arib2bdnxml::bitmap::generate_png_filename;
use arib2bdnxml::compositor::{Canvas, PaletteRect};
use arib2bdnxml::timeline::{
    resolve, time_add, time_sub, DecodeEvent, DisplayInterval, DisplaySpan, Phase, Resolution,
    TimelineBuilder, TimelineConfig, TrimWindow, MICROS_PER_SECOND,
};

const SECOND: i64 = 1_000_000;

fn config(start_offset: i64, window: TrimWindow) -> TimelineConfig {
    TimelineConfig { start_offset, window, canvas: Canvas { width: 1920, height: 1080 } }
}

fn plain() -> TimelineConfig {
    config(0, TrimWindow::unbounded())
}

fn rects() -> Vec<PaletteRect> {
    vec![PaletteRect {
        x: 100,
        y: 900,
        w: 2,
        h: 1,
        stride: 2,
        indices: vec![0, 1],
        palette: vec![0xffff_ffff, 0x8000_0000],
    }]
}

fn show(timestamp: i64) -> DecodeEvent {
    DecodeEvent { timestamp, display: None, rects: Some(rects()) }
}

fn show_span(timestamp: i64, start: i64, end: i64) -> DecodeEvent {
    DecodeEvent { timestamp, display: Some(DisplaySpan { start, end }), rects: Some(rects()) }
}

fn clear(timestamp: i64) -> DecodeEvent {
    DecodeEvent { timestamp, display: None, rects: None }
}

/// Drives a builder over the events, storing every image under its
/// sequence name.
fn run(config: TimelineConfig, events: Vec<DecodeEvent>) -> Vec<DisplayInterval> {
    let mut builder = TimelineBuilder::new(config);
    assert_eq!(builder.phase(), Phase::Empty);
    let mut pulls: Vec<Option<DecodeEvent>> = events.into_iter().map(Some).collect();
    pulls.push(None);
    for pulled in pulls {
        let ended = pulled.is_none();
        if let Some(pending) = builder.advance(pulled) {
            let name = generate_png_filename(builder.next_index(), "cap");
            builder.commit(&pending, name);
        }
        assert_eq!(builder.is_done(), ended);
    }
    assert_eq!(builder.phase(), Phase::Done);
    builder.finish()
}

fn times(intervals: &Vec<DisplayInterval>) -> Vec<(i64, i64)> {
    intervals.iter().map(|i| (i.start, i.end)).collect()
}

#[test]
fn show_then_clear_gives_one_interval() {
    let out = run(plain(), vec![show_span(0, 0, SECOND), clear(SECOND)]);
    assert_eq!(times(&out), vec![(0, SECOND)]);
    assert_eq!(out[0].image, "cap00000.png");
    assert_eq!((out[0].x, out[0].y, out[0].width, out[0].height), (100, 900, 2, 1));
}

#[test]
fn end_is_inferred_from_the_next_show_event() {
    let out = run(plain(), vec![show(0), show(2 * SECOND)]);
    assert_eq!(times(&out), vec![(0, 2 * SECOND), (2 * SECOND, 3 * SECOND)]);
    assert_eq!(out[0].image, "cap00000.png");
    assert_eq!(out[1].image, "cap00001.png");
}

#[test]
fn end_is_inferred_from_the_next_clear_event() {
    let out = run(plain(), vec![show(SECOND), clear(4 * SECOND), show(6 * SECOND)]);
    assert_eq!(times(&out), vec![(SECOND, 4 * SECOND), (6 * SECOND, 7 * SECOND)]);
}

#[test]
fn next_show_event_counts_with_its_reported_start() {
    let out = run(plain(), vec![show(SECOND), show_span(3 * SECOND, 5 * SECOND, 6 * SECOND)]);
    assert_eq!(times(&out), vec![(SECOND, 5 * SECOND), (5 * SECOND, 6 * SECOND)]);
}

#[test]
fn reported_span_is_used_only_where_it_is_valid() {
    let out = run(
        plain(),
        vec![show_span(SECOND, 7 * SECOND, 7 * SECOND), show_span(3 * SECOND, 9, 4)],
    );
    assert_eq!(times(&out), vec![(SECOND, 3 * SECOND), (3 * SECOND, 4 * SECOND)]);
}

#[test]
fn clear_event_closes_the_latest_interval() {
    let out = run(plain(), vec![show_span(0, 0, 5 * SECOND), clear(3 * SECOND)]);
    assert_eq!(times(&out), vec![(0, 3 * SECOND)]);
    // A clear event at time zero closes nothing.
    let out = run(plain(), vec![show_span(0, 0, 5 * SECOND), clear(0)]);
    assert_eq!(times(&out), vec![(0, 5 * SECOND)]);
    // Without an interval there is nothing to close.
    let out = run(plain(), vec![clear(SECOND), clear(2 * SECOND)]);
    assert!(out.is_empty());
}

#[test]
fn events_without_a_frame_are_skipped() {
    let mut empty = show(SECOND);
    empty.rects = Some(vec![]);
    let mut invisible = show(2 * SECOND);
    invisible.rects = Some(vec![PaletteRect {
        x: 0,
        y: 0,
        w: 1,
        h: 1,
        stride: 1,
        indices: vec![0],
        palette: vec![0x00ff_ffff],
    }]);
    let out = run(plain(), vec![show(0), empty, invisible, show(3 * SECOND)]);
    // The first interval ends where the skipped event starts.
    assert_eq!(times(&out), vec![(0, SECOND), (3 * SECOND, 4 * SECOND)]);
}

#[test]
fn empty_stream() {
    assert!(run(plain(), vec![]).is_empty());
    let mut builder = TimelineBuilder::new(plain());
    assert!(builder.advance(None).is_none());
    assert!(builder.is_done());
    // Once the stream has ended nothing changes any more.
    assert!(builder.advance(Some(show(0))).is_none());
    assert!(builder.advance(None).is_none());
    assert!(builder.is_done());
    assert_eq!(builder.next_index(), 0);
    assert!(builder.intervals().is_empty());
}

#[test]
fn stream_start_offset_is_taken_off() {
    let out = run(
        config(10 * SECOND, TrimWindow::unbounded()),
        vec![show_span(12 * SECOND, 12 * SECOND, 13 * SECOND), show(15 * SECOND), clear(16 * SECOND)],
    );
    assert_eq!(times(&out), vec![(2 * SECOND, 3 * SECOND), (5 * SECOND, 6 * SECOND)]);
}

fn window() -> TrimWindow {
    TrimWindow { start: Some(2 * SECOND), end: Some(5 * SECOND) }
}

#[test]
fn window_clips_and_rebases() {
    let w = window();
    assert_eq!(w.trim(3 * SECOND, 6 * SECOND), Some((SECOND, 3 * SECOND)));
    assert_eq!(w.trim(2 * SECOND, 3 * SECOND), Some((0, SECOND)));
    assert_eq!(w.trim(3 * SECOND, 4 * SECOND), Some((SECOND, 2 * SECOND)));
    assert_eq!(w.trim(4_999_999, 9 * SECOND), Some((2_999_999, 3 * SECOND)));
}

#[test]
fn window_drops_what_starts_outside() {
    let w = window();
    assert_eq!(w.trim(0, SECOND), None);
    assert_eq!(w.trim(SECOND, 2 * SECOND), None);
    assert_eq!(w.trim(5 * SECOND, 6 * SECOND), None);
    assert_eq!(w.trim(7 * SECOND, 8 * SECOND), None);
    // An interval that starts before the window is dropped whole.
    assert_eq!(w.trim(SECOND, 3 * SECOND), None);
    assert_eq!(w.trim(1_999_999, 9 * SECOND), None);
    // Nothing is left of an empty interval.
    assert_eq!(w.trim(3 * SECOND, 3 * SECOND), None);
    assert_eq!(w.trim(3 * SECOND, 2 * SECOND), None);
}

#[test]
fn half_open_windows() {
    let from = TrimWindow { start: Some(2 * SECOND), end: None };
    assert_eq!(from.trim(SECOND, 3 * SECOND), None);
    assert_eq!(from.trim(3 * SECOND, 9 * SECOND), Some((SECOND, 7 * SECOND)));
    let until = TrimWindow { start: None, end: Some(5 * SECOND) };
    assert_eq!(until.trim(SECOND, 9 * SECOND), Some((SECOND, 5 * SECOND)));
    assert_eq!(until.trim(5 * SECOND, 9 * SECOND), None);
    let none = TrimWindow::unbounded();
    assert_eq!(none.trim(-SECOND, SECOND), Some((-SECOND, SECOND)));
    assert_eq!(none.trim(SECOND, SECOND), None);
}

#[test]
fn closing_times_are_clipped_into_the_window() {
    let w = window();
    assert_eq!(w.close_at(3 * SECOND), SECOND);
    assert_eq!(w.close_at(7 * SECOND), 3 * SECOND);
    assert_eq!(w.close_at(SECOND), 0);
    assert_eq!(TrimWindow::unbounded().close_at(7 * SECOND), 7 * SECOND);
}

#[test]
fn timeline_under_a_window() {
    let out = run(
        config(0, window()),
        vec![
            show_span(SECOND, SECOND, 3 * SECOND),
            show_span(3 * SECOND, 3 * SECOND, 4 * SECOND),
            show_span(4 * SECOND, 4 * SECOND, 6 * SECOND),
            show_span(5 * SECOND, 5 * SECOND, 6 * SECOND),
        ],
    );
    assert_eq!(times(&out), vec![(SECOND, 2 * SECOND), (2 * SECOND, 3 * SECOND)]);
    let out = run(config(0, window()), vec![show_span(3 * SECOND, 3 * SECOND, 4 * SECOND), clear(9 * SECOND)]);
    assert_eq!(times(&out), vec![(SECOND, 3 * SECOND)]);
}

#[test]
fn resolving_single_events() {
    let cfg = plain();
    match resolve(&show(SECOND), None, &cfg) {
        Resolution::Show(pending) => {
            assert_eq!((pending.start, pending.end), (SECOND, 2 * SECOND));
            assert_eq!((pending.frame.x, pending.frame.y), (100, 900));
            assert_eq!(pending.frame.bitmap.data, vec![255, 255, 255, 255, 0, 0, 0, 128]);
        }
        other => panic!("unexpected {:?}", other),
    }
    match resolve(&clear(SECOND), Some(&show(2 * SECOND)), &cfg) {
        Resolution::Close(t) => assert_eq!(t, SECOND),
        other => panic!("unexpected {:?}", other),
    }
    assert!(matches!(resolve(&clear(0), None, &cfg), Resolution::Skip));
    let next = clear(SECOND);
    assert!(matches!(resolve(&show(SECOND), Some(&next), &cfg), Resolution::Skip));
    assert_eq!(show(SECOND).start_time(), SECOND);
    assert_eq!(show_span(SECOND, 2, 3).start_time(), 2);
    assert_eq!(show_span(SECOND, 2, 3).end_time(Some(&next)), 3);
    assert_eq!(show(0).end_time(Some(&next)), SECOND);
    assert_eq!(show(7).end_time(None), 7 + MICROS_PER_SECOND);
}

#[test]
fn times_saturate() {
    assert_eq!(time_add(i64::MAX, 1), i64::MAX);
    assert_eq!(time_add(i64::MIN, -1), i64::MIN);
    assert_eq!(time_add(2, 3), 5);
    assert_eq!(time_sub(i64::MIN, 1), i64::MIN);
    assert_eq!(time_sub(i64::MAX, -1), i64::MAX);
    assert_eq!(time_sub(2, 3), -1);
    assert_eq!(show(i64::MAX).end_time(None), i64::MAX);
}
