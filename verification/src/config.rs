//! Canvas sizes, the video format they stand for, and the decoder's default
//! options.

use crate::options::OptionMap;
use crate::text::{
    find_char, index_of, parse_trimmed_i32, push_signed, signed_decimal, str_chars, trimmed_i32_in,
};
use vstd::prelude::*;
use vstd::string::StringExecFns;

verus! {

/// Why a canvas could not be settled.
#[derive(Clone, Copy, Debug, PartialEq, Eq, Structural)]
pub enum ConfigError {
    /// The video has a resolution for which there is no canvas.
    UnsupportedResolution { width: i32, height: i32 },
    /// A canvas size is not of the form `WxH`.
    InvalidCanvasFormat,
    /// The width or the height of a canvas size is no 32-bit integer.
    InvalidCanvasNumber,
}

/// The canvas for a video resolution: the video's own size for 1280x720
/// and 720x480, and for 1440x1080 where anamorphic output is asked for;
/// 1920x1080 for 1920x1080, for 1440x1080 otherwise, and where the video
/// size is unknown (0x0). Any other resolution has no canvas.
pub open spec fn canvas_for(width: i32, height: i32, anamorphic: bool) -> Result<
    Seq<char>,
    ConfigError,
> {
    if (width == 0 && height == 0) || (width == 1920 && height == 1080) {
        Ok("1920x1080"@)
    } else if width == 1280 && height == 720 {
        Ok("1280x720"@)
    } else if width == 1440 && height == 1080 {
        if anamorphic {
            Ok("1440x1080"@)
        } else {
            Ok("1920x1080"@)
        }
    } else if width == 720 && height == 480 {
        Ok("720x480"@)
    } else {
        Err(ConfigError::UnsupportedResolution { width, height })
    }
}

/// Settles the canvas size for a video resolution.
pub fn determine_canvas_size(video_width: i32, video_height: i32, anamorphic: bool) -> (canvas:
    Result<String, ConfigError>)
    ensures
        match canvas_for(video_width, video_height, anamorphic) {
            Ok(text) => canvas matches Ok(size) && size@ == text,
            Err(e) => canvas == Err::<String, ConfigError>(e),
        },
{
    if (video_width == 0 && video_height == 0) || (video_width == 1920 && video_height == 1080) {
        Ok(String::from_str("1920x1080"))
    } else if video_width == 1280 && video_height == 720 {
        Ok(String::from_str("1280x720"))
    } else if video_width == 1440 && video_height == 1080 {
        if anamorphic {
            Ok(String::from_str("1440x1080"))
        } else {
            Ok(String::from_str("1920x1080"))
        }
    } else if video_width == 720 && video_height == 480 {
        Ok(String::from_str("720x480"))
    } else {
        Err(ConfigError::UnsupportedResolution { width: video_width, height: video_height })
    }
}

/// The width and height that a canvas size writes: two 32-bit integers
/// with an `x` between them, white space around each left out.
///
/// The width is judged first, then the presence and the value of the
/// height, then that nothing follows.
pub open spec fn canvas_size_value(s: Seq<char>) -> Result<(i32, i32), ConfigError> {
    let first = index_of(s, 'x', 0);
    let second = index_of(s, 'x', first + 1);
    if trimmed_i32_in(s, 0, first) is None {
        Err(ConfigError::InvalidCanvasNumber)
    } else if first >= s.len() {
        Err(ConfigError::InvalidCanvasFormat)
    } else if trimmed_i32_in(s, first + 1, second) is None {
        Err(ConfigError::InvalidCanvasNumber)
    } else if second < s.len() {
        Err(ConfigError::InvalidCanvasFormat)
    } else {
        Ok((trimmed_i32_in(s, 0, first)->0, trimmed_i32_in(s, first + 1, second)->0))
    }
}

/// Reads a canvas size of the form `WxH`.
pub fn parse_canvas_size(s: &str) -> (size: Result<(i32, i32), ConfigError>)
    ensures
        size == canvas_size_value(s@),
{
    let chars = str_chars(s);
    let n: usize = chars.len();
    let first = find_char(&chars, 'x', 0);
    let width = match parse_trimmed_i32(&chars, 0, first) {
        Some(v) => v,
        None => {
            return Err(ConfigError::InvalidCanvasNumber);
        },
    };
    if first >= n {
        return Err(ConfigError::InvalidCanvasFormat);
    }
    let second = find_char(&chars, 'x', first + 1);
    let height = match parse_trimmed_i32(&chars, first + 1, second) {
        Some(v) => v,
        None => {
            return Err(ConfigError::InvalidCanvasNumber);
        },
    };
    if second < n {
        return Err(ConfigError::InvalidCanvasFormat);
    }
    Ok((width, height))
}

/// The video format that a canvas size stands for: by its number of lines,
/// `1080i` or `1080p`, `720p`, `480i` or `480p`; `1080p` for any other
/// canvas and for a text that is no canvas size.
pub open spec fn video_format_for(canvas_size: Seq<char>, interlaced: bool) -> Seq<char> {
    match canvas_size_value(canvas_size) {
        Ok((_, lines)) => if lines == 1080 && interlaced {
            "1080i"@
        } else if lines == 720 {
            "720p"@
        } else if lines == 480 && interlaced {
            "480i"@
        } else if lines == 480 {
            "480p"@
        } else {
            "1080p"@
        },
        Err(_) => "1080p"@,
    }
}

/// Names the video format of a canvas size.
pub fn video_format_from_canvas(canvas_size: &str, interlaced: bool) -> (format: String)
    ensures
        format@ == video_format_for(canvas_size@, interlaced),
{
    match parse_canvas_size(canvas_size) {
        Ok((_, lines)) => {
            if lines == 1080 && interlaced {
                String::from_str("1080i")
            } else if lines == 720 {
                String::from_str("720p")
            } else if lines == 480 && interlaced {
                String::from_str("480i")
            } else if lines == 480 {
                String::from_str("480p")
            } else {
                String::from_str("1080p")
            }
        },
        Err(_) => String::from_str("1080p"),
    }
}

/// The font that the decoder uses where none is set.
pub open spec fn default_font(windows: bool) -> Seq<char> {
    if windows {
        "Rounded M+ 1m for ARIB"@
    } else {
        "Hiragino Maru Gothic ProN, Rounded M+ 1m for ARIB"@
    }
}

/// The font that the decoder uses where none is set; Windows has its own.
pub fn default_arib_font(windows: bool) -> (font: String)
    ensures
        font@ == default_font(windows),
{
    if windows {
        String::from_str("Rounded M+ 1m for ARIB")
    } else {
        String::from_str("Hiragino Maru Gothic ProN, Rounded M+ 1m for ARIB")
    }
}

/// `options` with `key` set to `value` unless `key` is set already.
pub open spec fn with_default(
    options: Map<Seq<char>, Seq<char>>,
    key: Seq<char>,
    value: Seq<char>,
) -> Map<Seq<char>, Seq<char>> {
    if options.contains_key(key) {
        options
    } else {
        options.insert(key, value)
    }
}

/// `options` with every default of the decoder filled in.
pub open spec fn with_defaults(options: Map<Seq<char>, Seq<char>>, windows: bool) -> Map<
    Seq<char>,
    Seq<char>,
> {
    with_default(
        with_default(
            with_default(
                with_default(
                    with_default(
                        with_default(
                            with_default(
                                with_default(
                                    with_default(
                                        with_default(options, "caption_encoding"@, "0"@),
                                        "font"@,
                                        default_font(windows),
                                    ),
                                    "force_outline_text"@,
                                    "0"@,
                                ),
                                "ignore_background"@,
                                "0"@,
                            ),
                            "ignore_ruby"@,
                            "0"@,
                        ),
                        "outline_width"@,
                        "0.0"@,
                    ),
                    "replace_drcs"@,
                    "0"@,
                ),
                "replace_msz_ascii"@,
                "0"@,
            ),
            "replace_msz_japanese"@,
            "0"@,
        ),
        "replace_msz_glyph"@,
        "0"@,
    )
}

/// Fills in the decoder's defaults for the keys that are not set.
pub fn setup_libaribcaption_defaults(opts: &mut OptionMap, windows: bool)
    ensures
        final(opts)@ == with_defaults(old(opts)@, windows),
{
    let font = default_arib_font(windows);
    opts.insert_if_absent("caption_encoding", "0");
    opts.insert_if_absent("font", font.as_str());
    opts.insert_if_absent("force_outline_text", "0");
    opts.insert_if_absent("ignore_background", "0");
    opts.insert_if_absent("ignore_ruby", "0");
    opts.insert_if_absent("outline_width", "0.0");
    opts.insert_if_absent("replace_drcs", "0");
    opts.insert_if_absent("replace_msz_ascii", "0");
    opts.insert_if_absent("replace_msz_japanese", "0");
    opts.insert_if_absent("replace_msz_glyph", "0");
}

/// A default never replaces what is set: every key that was set keeps its
/// value, and no key is lost.
pub proof fn lemma_with_default_keeps(
    options: Map<Seq<char>, Seq<char>>,
    key: Seq<char>,
    value: Seq<char>,
    other: Seq<char>,
)
    requires
        options.contains_key(other),
    ensures
        with_default(options, key, value).contains_key(other),
        with_default(options, key, value)[other] == options[other],
        with_default(options, key, value).contains_key(key),
{
}

/// Filling in the defaults keeps every option that was set.
pub proof fn lemma_defaults_keep_options(
    options: Map<Seq<char>, Seq<char>>,
    windows: bool,
    key: Seq<char>,
)
    requires
        options.contains_key(key),
    ensures
        with_defaults(options, windows).contains_key(key),
        with_defaults(options, windows)[key] == options[key],
{
}

impl ConfigError {
    /// The text that tells a user what is wrong.
    pub open spec fn message_text(&self) -> Seq<char> {
        match *self {
            ConfigError::UnsupportedResolution { width, height } => "Unsupported video resolution: "@
                + signed_decimal(width as int) + "x"@ + signed_decimal(height as int)
                + ". Supported: 1920x1080, 1440x1080, 1280x720, 720x480."@,
            ConfigError::InvalidCanvasFormat => "invalid canvas_size format"@,
            ConfigError::InvalidCanvasNumber => "invalid canvas_size number"@,
        }
    }

    /// The text that tells a user what is wrong.
    pub fn message(&self) -> (text: String)
        ensures
            text@ == self.message_text(),
    {
        match self {
            ConfigError::UnsupportedResolution { width, height } => {
                let mut text = String::from_str("Unsupported video resolution: ");
                push_signed(&mut text, *width as i64);
                text.append("x");
                push_signed(&mut text, *height as i64);
                text.append(". Supported: 1920x1080, 1440x1080, 1280x720, 720x480.");
                text
            },
            ConfigError::InvalidCanvasFormat => String::from_str("invalid canvas_size format"),
            ConfigError::InvalidCanvasNumber => String::from_str("invalid canvas_size number"),
        }
    }
}

} // verus!
