//! Conversion of timed, palette-indexed caption bitmaps into composited RGBA
//! images and a BDN XML timeline.

pub mod bdn;
pub mod bitmap;
pub mod companion;
pub mod compositor;
pub mod config;
pub mod options;
pub mod source;
pub mod text;
pub mod time_text;
pub mod timecode;
pub mod timeline;
