use arib2bdnxml::companion::{
    companion_mkv_base_candidates, needs_companion, resolve_effective_resolution,
    strip_trailing_digits,
};
use arib2bdnxml::config::{
    default_arib_font, determine_canvas_size, parse_canvas_size, setup_libaribcaption_defaults,
    video_format_from_canvas, ConfigError,
};
use arib2bdnxml::options::{is_excluded_opt, parse_libaribcaption_opts, OptionMap};
use arib2bdnxml::time_text::{parse_hhmmss, parse_mmss, parse_time_string, TimeParseError};

#[test]
fn test_companion_mkv_base_candidates() {
    assert!(companion_mkv_base_candidates("").is_empty());
    let c = companion_mkv_base_candidates("MOVIE.jpn");
    assert!(c.contains(&"MOVIE".to_string()));
    assert!(c.contains(&"MOVIE.jpn".to_string()));
    let c = companion_mkv_base_candidates("MOVIE.01.jpn");
    assert!(c.contains(&"MOVIE".to_string()));
    assert!(c.contains(&"MOVIE.01".to_string()));
    assert!(c.contains(&"MOVIE.01.jpn".to_string()));
    let c = companion_mkv_base_candidates("MOVIE.01.jpn.forced");
    assert!(c.contains(&"MOVIE".to_string()));
    assert!(c.contains(&"MOVIE.01.jpn".to_string()));
    let c = companion_mkv_base_candidates("MOVIE.forced");
    assert!(c.contains(&"MOVIE".to_string()));
}

#[test]
fn companion_candidates_come_in_order() {
    assert_eq!(
        companion_mkv_base_candidates("MOVIE.01.jpn.forced"),
        vec!["MOVIE.01.jpn.forced", "MOVIE.01.jpn", "MOVIE.01", "MOVIE"]
    );
    assert_eq!(companion_mkv_base_candidates("MOVIE"), vec!["MOVIE"]);
    assert_eq!(companion_mkv_base_candidates(".jpn"), vec![".jpn"]);
    assert_eq!(
        companion_mkv_base_candidates("A.1.2.english.japanese"),
        vec!["A.1.2.english.japanese", "A.1.2.english", "A.1.2", "A.1", "A"]
    );
    // A tag under a track number is not taken off.
    assert_eq!(companion_mkv_base_candidates("A.jpn.01"), vec!["A.jpn.01", "A.jpn"]);
}

#[test]
fn trailing_track_numbers() {
    assert_eq!(strip_trailing_digits("MOVIE.01"), Some("MOVIE".to_string()));
    assert_eq!(strip_trailing_digits("MOVIE.001"), Some("MOVIE".to_string()));
    assert_eq!(strip_trailing_digits("MOVIE01"), None);
    assert_eq!(strip_trailing_digits("MOVIE."), None);
    assert_eq!(strip_trailing_digits("MOVIE"), None);
    assert_eq!(strip_trailing_digits(".5"), Some("".to_string()));
    assert_eq!(strip_trailing_digits(""), None);
}

#[test]
fn effective_resolution() {
    let found = vec![(1920, 1080), (1280, 720), (720, 480)];
    assert_eq!(resolve_effective_resolution(1440, 1080, true, &found), (1440, 1080));
    assert_eq!(resolve_effective_resolution(0, 0, false, &found), (0, 0));
    assert_eq!(resolve_effective_resolution(0, 0, true, &found), (1280, 720));
    assert_eq!(resolve_effective_resolution(0, 0, true, &vec![(1920, 1080)]), (0, 0));
    assert_eq!(resolve_effective_resolution(0, 0, true, &vec![]), (0, 0));
    assert_eq!(resolve_effective_resolution(0, 5, true, &found), (0, 5));
    assert!(needs_companion(0, 0, true));
    assert!(!needs_companion(0, 0, false));
    assert!(!needs_companion(1, 0, true));
}

#[test]
fn test_parse_time_seconds() {
    assert!((parse_time_string("123.456").unwrap() as f64 / 1e6 - 123.456).abs() < 1e-9);
    assert!((parse_time_string("0").unwrap() as f64 / 1e6).abs() < 1e-9);
}

#[test]
fn test_parse_time_hhmmss() {
    assert!(
        (parse_time_string("01:23:45").unwrap() as f64 / 1e6 - (3600.0 + 23.0 * 60.0 + 45.0)).abs()
            < 1e-9
    );
    assert!((parse_time_string("00:00:00").unwrap() as f64 / 1e6).abs() < 1e-9);
}

#[test]
fn test_parse_time_hhmmss_mmm() {
    let v = parse_time_string("01:23:45.123").unwrap() as f64 / 1e6;
    assert!((v - (3600.0 + 23.0 * 60.0 + 45.123)).abs() < 1e-6);
}

#[test]
fn test_parse_time_mmss() {
    assert!((parse_time_string("23:45").unwrap() as f64 / 1e6 - (23.0 * 60.0 + 45.0)).abs() < 1e-9);
}

#[test]
fn time_strings_in_microseconds() {
    assert_eq!(parse_time_string("123.456"), Ok(123_456_000));
    assert_eq!(parse_time_string(" 2 "), Ok(2_000_000));
    assert_eq!(parse_time_string("01:23:45.123"), Ok(5_025_123_000));
    assert_eq!(parse_time_string("23:45.5"), Ok(1_425_500_000));
    assert_eq!(parse_time_string("0.0000019"), Ok(1));
    assert_eq!(parse_time_string(".5"), Ok(500_000));
    assert_eq!(parse_time_string("5."), Ok(5_000_000));
    assert_eq!(parse_time_string("+1.5"), Ok(1_500_000));
    assert_eq!(parse_time_string("-1.5"), Ok(-1_500_000));
    assert_eq!(parse_time_string("-00:01:00"), Ok(60_000_000));
    assert_eq!(parse_time_string("-1:00:00.5"), Ok(-3_599_500_000));
    assert_eq!(parse_time_string(" 1 : 2 : 3 "), Ok(3_723_000_000));
    assert_eq!(parse_time_string("9223372036854.775807"), Ok(i64::MAX));
}

#[test]
fn time_string_errors() {
    assert_eq!(parse_time_string(""), Err(TimeParseError::InvalidFormat));
    assert_eq!(parse_time_string("abc"), Err(TimeParseError::InvalidFormat));
    assert_eq!(parse_time_string("."), Err(TimeParseError::InvalidFormat));
    assert_eq!(parse_time_string("1:2:3:4"), Err(TimeParseError::InvalidFormat));
    assert_eq!(parse_time_string("1.2.3"), Err(TimeParseError::InvalidFormat));
    assert_eq!(parse_time_string("9223372036854.775808"), Err(TimeParseError::OutOfRange));
    assert_eq!(parse_time_string("99999999999999999999"), Err(TimeParseError::OutOfRange));
    assert_eq!(parse_time_string("1:2:3.x"), Err(TimeParseError::InvalidMilliseconds));
    assert_eq!(parse_time_string("1:2.3.4"), Err(TimeParseError::InvalidMilliseconds));
    assert_eq!(parse_time_string("1.5:2:3"), Err(TimeParseError::InvalidMilliseconds));
    assert_eq!(parse_time_string("1:2.:3"), Err(TimeParseError::InvalidMilliseconds));
    assert_eq!(parse_time_string("1:2.5"), Ok(62_500_000));
    assert_eq!(parse_time_string("x:2:3"), Err(TimeParseError::InvalidHours));
    assert_eq!(parse_time_string("1:x:3"), Err(TimeParseError::InvalidMinutes));
    assert_eq!(parse_time_string("1:2:x"), Err(TimeParseError::InvalidSeconds));
    assert_eq!(parse_time_string("x:3"), Err(TimeParseError::InvalidMinutes));
    assert_eq!(parse_time_string("1:"), Err(TimeParseError::InvalidSeconds));
    assert_eq!(parse_time_string("99999999999:00"), Err(TimeParseError::InvalidMinutes));
    assert_eq!(TimeParseError::NeedsThreeFields.message(), "HH:MM:SS requires 3 numbers");
    assert_eq!(TimeParseError::NeedsTwoFields.message(), "MM:SS requires 2 numbers");
    assert_eq!(TimeParseError::InvalidHours.message(), "invalid hours");
    assert_eq!(TimeParseError::InvalidMilliseconds.message(), "invalid milliseconds");
}

#[test]
fn test_parse_libaribcaption_opts() {
    let m = parse_libaribcaption_opts("outline_width=0.0,font=Hiragino");
    assert_eq!(m.get("outline_width"), Some(&"0.0".to_string()));
    assert_eq!(m.get("font"), Some(&"Hiragino".to_string()));
}

#[test]
fn test_parse_libaribcaption_opts_excluded() {
    let m = parse_libaribcaption_opts("sub_type=bitmap,outline_width=0.0");
    assert!(m.get("sub_type").is_none());
    assert_eq!(m.get("outline_width"), Some(&"0.0".to_string()));
}

#[test]
fn test_parse_libaribcaption_opts_quoted() {
    let m = parse_libaribcaption_opts("font=\"Hiragino Maru Gothic ProN\"");
    assert_eq!(m.get("font"), Some(&"Hiragino Maru Gothic ProN".to_string()));
}

#[test]
fn option_values_may_hold_commas() {
    let m = parse_libaribcaption_opts("font=\"A, B\",outline_width=1.5");
    assert_eq!(m.get("font"), Some(&"A, B".to_string()));
    assert_eq!(m.get("outline_width"), Some(&"1.5".to_string()));
    let m = parse_libaribcaption_opts("font=A, B,outline_width=1.5");
    assert_eq!(m.get("font"), Some(&"A, B".to_string()));
    assert_eq!(m.get("outline_width"), Some(&"1.5".to_string()));
    let m = parse_libaribcaption_opts("font='x=1,y=2' , k = v ");
    assert_eq!(m.get("font"), Some(&"x=1,y=2".to_string()));
    assert_eq!(m.get("k"), Some(&"v".to_string()));
    assert_eq!(m.assignment_count(), 2);
}

#[test]
fn option_text_edge_cases() {
    assert_eq!(parse_libaribcaption_opts("").assignment_count(), 0);
    assert_eq!(parse_libaribcaption_opts("   ").assignment_count(), 0);
    assert_eq!(parse_libaribcaption_opts("novalue").assignment_count(), 0);
    let m = parse_libaribcaption_opts("a=1,b");
    assert_eq!(m.get("a"), Some(&"1,b".to_string()));
    let m = parse_libaribcaption_opts("a=1,a=2");
    assert_eq!(m.get("a"), Some(&"2".to_string()));
    assert_eq!(m.assignment_count(), 2);
    let m = parse_libaribcaption_opts("a=,b=2");
    assert_eq!(m.get("a"), Some(&"".to_string()));
    assert_eq!(m.get("b"), Some(&"2".to_string()));
    let m = parse_libaribcaption_opts("canvas_size=1x1,ass_single_rect=1,font=字幕");
    assert!(!m.contains_key("canvas_size"));
    assert!(!m.contains_key("ass_single_rect"));
    assert_eq!(m.get("font"), Some(&"字幕".to_string()));
    let (k, v) = m.assignment(0);
    assert_eq!((k.as_str(), v.as_str()), ("font", "字幕"));
}

#[test]
fn reserved_keys() {
    assert!(is_excluded_opt("sub_type"));
    assert!(is_excluded_opt("ass_single_rect"));
    assert!(is_excluded_opt("canvas_size"));
    assert!(!is_excluded_opt("font"));
    assert!(!is_excluded_opt(""));
}

#[test]
fn defaults_fill_only_what_is_not_set() {
    let mut opts = OptionMap::new();
    opts.insert("font".to_string(), "Mine".to_string());
    opts.insert("outline_width".to_string(), "2.0".to_string());
    setup_libaribcaption_defaults(&mut opts, false);
    assert_eq!(opts.get("font"), Some(&"Mine".to_string()));
    assert_eq!(opts.get("outline_width"), Some(&"2.0".to_string()));
    for key in [
        "caption_encoding",
        "force_outline_text",
        "ignore_background",
        "ignore_ruby",
        "replace_drcs",
        "replace_msz_ascii",
        "replace_msz_japanese",
        "replace_msz_glyph",
    ] {
        assert_eq!(opts.get(key), Some(&"0".to_string()));
    }
    assert_eq!(opts.assignment_count(), 10);

    let mut fresh = OptionMap::new();
    setup_libaribcaption_defaults(&mut fresh, false);
    assert_eq!(
        fresh.get("font"),
        Some(&"Hiragino Maru Gothic ProN, Rounded M+ 1m for ARIB".to_string())
    );
    assert_eq!(fresh.get("outline_width"), Some(&"0.0".to_string()));
    let mut windows = OptionMap::new();
    setup_libaribcaption_defaults(&mut windows, true);
    assert_eq!(windows.get("font"), Some(&"Rounded M+ 1m for ARIB".to_string()));
    assert_eq!(default_arib_font(true), "Rounded M+ 1m for ARIB");
}

#[test]
fn canvas_sizes() {
    assert_eq!(determine_canvas_size(0, 0, false), Ok("1920x1080".to_string()));
    assert_eq!(determine_canvas_size(1920, 1080, true), Ok("1920x1080".to_string()));
    assert_eq!(determine_canvas_size(1280, 720, false), Ok("1280x720".to_string()));
    assert_eq!(determine_canvas_size(1440, 1080, true), Ok("1440x1080".to_string()));
    assert_eq!(determine_canvas_size(1440, 1080, false), Ok("1920x1080".to_string()));
    assert_eq!(determine_canvas_size(720, 480, false), Ok("720x480".to_string()));
    let err = determine_canvas_size(640, 480, false).unwrap_err();
    assert_eq!(err, ConfigError::UnsupportedResolution { width: 640, height: 480 });
    assert_eq!(
        err.message(),
        "Unsupported video resolution: 640x480. Supported: 1920x1080, 1440x1080, 1280x720, 720x480."
    );
}

#[test]
fn canvas_size_texts() {
    assert_eq!(parse_canvas_size("1920x1080"), Ok((1920, 1080)));
    assert_eq!(parse_canvas_size(" 720 x 480 "), Ok((720, 480)));
    assert_eq!(parse_canvas_size("-1x+2"), Ok((-1, 2)));
    assert_eq!(parse_canvas_size("1920"), Err(ConfigError::InvalidCanvasFormat));
    assert_eq!(parse_canvas_size("1x2x3"), Err(ConfigError::InvalidCanvasFormat));
    assert_eq!(parse_canvas_size(""), Err(ConfigError::InvalidCanvasNumber));
    assert_eq!(parse_canvas_size("ax2"), Err(ConfigError::InvalidCanvasNumber));
    assert_eq!(parse_canvas_size("1x"), Err(ConfigError::InvalidCanvasNumber));
    assert_eq!(parse_canvas_size("1xbx3"), Err(ConfigError::InvalidCanvasNumber));
    assert_eq!(parse_canvas_size("2147483648x1"), Err(ConfigError::InvalidCanvasNumber));
    assert_eq!(parse_canvas_size("2147483647x-2147483648"), Ok((i32::MAX, i32::MIN)));
    assert_eq!(parse_canvas_size("1920X1080"), Err(ConfigError::InvalidCanvasNumber));
    assert_eq!(ConfigError::InvalidCanvasFormat.message(), "invalid canvas_size format");
}

#[test]
fn video_formats() {
    assert_eq!(video_format_from_canvas("1920x1080", false), "1080p");
    assert_eq!(video_format_from_canvas("1920x1080", true), "1080i");
    assert_eq!(video_format_from_canvas("1440x1080", false), "1080p");
    assert_eq!(video_format_from_canvas("1280x720", false), "720p");
    assert_eq!(video_format_from_canvas("1280x720", true), "720p");
    assert_eq!(video_format_from_canvas("720x480", false), "480p");
    assert_eq!(video_format_from_canvas("720x480", true), "480i");
    assert_eq!(video_format_from_canvas("720x576", true), "1080p");
    assert_eq!(video_format_from_canvas("nonsense", false), "1080p");
}

fn chars(text: &str) -> Vec<char> {
    text.chars().collect()
}

#[test]
fn clock_fields() {
    assert_eq!(parse_hhmmss(&chars("01:23:45"), 8), Ok(5025));
    assert_eq!(parse_hhmmss(&chars("01:23:45.5"), 8), Ok(5025));
    assert_eq!(parse_hhmmss(&chars("-1:00:30"), 8), Ok(-3570));
    assert_eq!(parse_hhmmss(&chars("12:34"), 5), Err(TimeParseError::NeedsThreeFields));
    assert_eq!(parse_hhmmss(&chars("1234"), 4), Err(TimeParseError::NeedsThreeFields));
    assert_eq!(parse_hhmmss(&chars("1:2:3:4"), 7), Err(TimeParseError::NeedsThreeFields));
    assert_eq!(parse_hhmmss(&chars("1:2:3"), 3), Err(TimeParseError::NeedsThreeFields));
    assert_eq!(parse_hhmmss(&chars(":2:3"), 4), Err(TimeParseError::InvalidHours));
    assert_eq!(parse_hhmmss(&chars("1::3"), 4), Err(TimeParseError::InvalidMinutes));
    assert_eq!(parse_hhmmss(&chars("1:2:"), 4), Err(TimeParseError::InvalidSeconds));
    assert_eq!(parse_mmss(&chars("23:45"), 5), Ok(1425));
    assert_eq!(parse_mmss(&chars("-1:30"), 5), Ok(-30));
    assert_eq!(parse_mmss(&chars("2345"), 4), Err(TimeParseError::NeedsTwoFields));
    assert_eq!(parse_mmss(&chars("1:2:3"), 5), Err(TimeParseError::NeedsTwoFields));
    assert_eq!(parse_mmss(&chars("a:3"), 3), Err(TimeParseError::InvalidMinutes));
    assert_eq!(parse_mmss(&chars("3:b"), 3), Err(TimeParseError::InvalidSeconds));
    assert_eq!(TimeParseError::InvalidMinutes.message(), "invalid minutes");
    assert_eq!(TimeParseError::InvalidSeconds.message(), "invalid seconds");
    assert_eq!(TimeParseError::OutOfRange.message(), "time out of range");
    assert_eq!(
        TimeParseError::InvalidFormat.message(),
        "Invalid time format. Use seconds (e.g. 123.456) or HH:MM:SS.mmm (e.g. 01:23:45.123)"
    );
}
