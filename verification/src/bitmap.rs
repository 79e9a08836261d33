//! RGBA rasters, their conversion to straight alpha, and their PNG form.

use crate::text::{push_zero_padded, zero_padded};
use vstd::prelude::*;
use vstd::string::StringExecFns;

verus! {

/// One pixel: red, green, blue and alpha, eight bits each.
#[derive(Clone, Copy, Debug, PartialEq, Eq, Structural)]
pub struct Rgba {
    pub r: u8,
    pub g: u8,
    pub b: u8,
    pub a: u8,
}

/// The pixel in column `i` of row `j` of a raster with the given row pitch.
pub open spec fn pixel_at(data: Seq<u8>, stride: int, i: int, j: int) -> Rgba {
    Rgba {
        r: data[j * stride + 4 * i],
        g: data[j * stride + 4 * i + 1],
        b: data[j * stride + 4 * i + 2],
        a: data[j * stride + 4 * i + 3],
    }
}

/// An RGBA raster; each row takes `stride` bytes, of which the first
/// `4 * width` hold its pixels.
#[derive(Clone, Debug)]
pub struct BitmapData {
    pub data: Vec<u8>,
    pub width: i32,
    pub height: i32,
    pub stride: i32,
}

/// Why a raster could not be turned into a PNG image.
#[derive(Clone, Copy, Debug, PartialEq, Eq, Structural)]
pub enum PngError {
    /// The raster has no pixels, or its buffer does not hold its rows.
    InvalidBitmap,
    /// The encoder refused the image.
    Encoding,
}

/// A colour channel stored premultiplied by `alpha`, as straight alpha:
/// zero under alpha zero, else `channel * 255 / alpha` rounded to the
/// nearest and limited to 255.
pub open spec fn straight_channel(channel: u8, alpha: u8) -> u8 {
    if alpha == 0 {
        0
    } else if (channel * 255 + alpha / 2) / (alpha as int) > 255 {
        255
    } else {
        ((channel * 255 + alpha / 2) / (alpha as int)) as u8
    }
}

/// A premultiplied pixel as straight alpha; the alpha itself stays.
pub open spec fn straight(px: Rgba) -> Rgba {
    Rgba {
        r: straight_channel(px.r, px.a),
        g: straight_channel(px.g, px.a),
        b: straight_channel(px.b, px.a),
        a: px.a,
    }
}

/// Byte `c` of a pixel in the order red, green, blue, alpha.
pub open spec fn channel_of(px: Rgba, c: int) -> u8 {
    if c == 0 {
        px.r
    } else if c == 1 {
        px.g
    } else if c == 2 {
        px.b
    } else {
        px.a
    }
}

impl BitmapData {
    /// The raster has pixels, rows do not overlap, and every row lies inside
    /// the buffer.
    pub open spec fn wf(&self) -> bool {
        &&& self.width > 0
        &&& self.height > 0
        &&& self.stride >= 4 * self.width
        &&& (self.height - 1) * self.stride + 4 * self.width <= self.data@.len()
    }

    /// The pixel in column `i` of row `j`.
    pub open spec fn pixel(&self, i: int, j: int) -> Rgba {
        pixel_at(self.data@, self.stride as int, i, j)
    }

    /// Row `j` as straight alpha, four bytes per pixel, without padding.
    pub open spec fn straight_row(&self, j: int) -> Seq<u8> {
        Seq::new((4 * self.width) as nat, |k: int| channel_of(straight(self.pixel(k / 4, j)), k % 4))
    }

    /// The first `n` rows as straight alpha, one after the other.
    pub open spec fn straight_rows(&self, n: nat) -> Seq<u8>
        decreases n,
    {
        if n == 0 {
            Seq::empty()
        } else {
            self.straight_rows((n - 1) as nat) + self.straight_row(n - 1)
        }
    }

    /// Checks that the raster is well formed.
    pub fn is_valid(&self) -> (ok: bool)
        ensures
            ok == self.wf(),
    {
        if self.width <= 0 || self.height <= 0 {
            return false;
        }
        if (self.stride as i64) < 4 * (self.width as i64) {
            return false;
        }
        let rows: u64 = (self.height - 1) as u64;
        let pitch: u64 = self.stride as u64;
        assert(rows * pitch <= 0x8000_0000 * 0x8000_0000) by (nonlinear_arith)
            requires
                rows <= 0x8000_0000,
                pitch <= 0x8000_0000,
        ;
        assert(rows * pitch == (self.height - 1) * self.stride) by (nonlinear_arith)
            requires
                rows == self.height - 1,
                pitch == self.stride,
        ;
        rows * pitch + 4 * (self.width as u64) <= self.data.len() as u64
    }

    /// The pixels as straight alpha, rows tightly packed.
    pub fn straight_alpha_pixels(&self) -> (pixels: Vec<u8>)
        requires
            self.wf(),
        ensures
            pixels@ == self.straight_rows(self.height as nat),
            pixels@.len() == 4 * self.width * self.height,
    {
        let mut pixels: Vec<u8> = Vec::new();
        let mut j: i32 = 0;
        while j < self.height
            invariant
                0 <= j <= self.height,
                self.wf(),
                pixels@ == self.straight_rows(j as nat),
                pixels@.len() == 4 * self.width * j,
            decreases self.height - j,
        {
            let ghost done = pixels@;
            proof {
                lemma_row_in_buffer(
                    j as int,
                    self.height as int,
                    self.width as int,
                    self.stride as int,
                );
            }
            let row: u64 = j as u64;
            let pitch: u64 = self.stride as u64;
            assert(row * pitch == j * self.stride) by (nonlinear_arith)
                requires
                    row == j,
                    pitch == self.stride,
            ;
            let data_len: usize = self.data.len();
            let start: usize = (row * pitch) as usize;
            let mut i: i32 = 0;
            while i < self.width
                invariant
                    0 <= i <= self.width,
                    0 <= j < self.height,
                    self.wf(),
                    start == j * self.stride,
                    start + 4 * self.width <= self.data@.len(),
                    data_len == self.data@.len(),
                    pixels@ == done + self.straight_row(j as int).take(4 * i),
                decreases self.width - i,
            {
                let at: usize = start + 4 * (i as usize);
                let alpha: u8 = self.data[at + 3];
                let r: u8 = unpremultiply(self.data[at], alpha);
                let g: u8 = unpremultiply(self.data[at + 1], alpha);
                let b: u8 = unpremultiply(self.data[at + 2], alpha);
                let ghost before = pixels@;
                pixels.push(r);
                pixels.push(g);
                pixels.push(b);
                pixels.push(alpha);
                proof {
                    let whole = self.straight_row(j as int);
                    assert(pixels@ == done + whole.take(4 * (i + 1))) by {
                        assert(whole.take(4 * (i + 1)) == whole.take(4 * i).push(whole[4 * i]).push(
                            whole[4 * i + 1],
                        ).push(whole[4 * i + 2]).push(whole[4 * i + 3]));
                    }
                }
                i += 1;
            }
            proof {
                let whole = self.straight_row(j as int);
                assert(whole.take(4 * self.width) == whole);
                assert(4 * self.width * (j + 1) == 4 * self.width * j + 4 * self.width)
                    by (nonlinear_arith);
            }
            j += 1;
        }
        pixels
    }
}

/// Row `j` of a well-formed raster starts and ends inside the buffer.
proof fn lemma_row_in_buffer(j: int, height: int, width: int, stride: int)
    by (nonlinear_arith)
    requires
        0 <= j < height,
        0 <= 4 * width <= stride,
    ensures
        0 <= j * stride,
        j * stride + 4 * width <= (height - 1) * stride + 4 * width,
{
}

/// One premultiplied colour channel as straight alpha.
pub fn unpremultiply(channel: u8, alpha: u8) -> (out: u8)
    ensures
        out == straight_channel(channel, alpha),
{
    if alpha == 0 {
        0
    } else {
        let a: u32 = alpha as u32;
        let v: u32 = (channel as u32 * 255 + a / 2) / a;
        if v > 255 {
            255
        } else {
            v as u8
        }
    }
}

/// The bytes of the PNG image that the encoder writes for an eight-bit
/// RGBA image of the given size with the given pixel bytes, marked as sRGB
/// with perceptual rendering intent; `None` where the encoder reports an
/// error.
pub uninterp spec fn png_rgba8(width: nat, height: nat, pixels: Seq<u8>) -> Option<Seq<u8>>;

/// The error type of the encoder, `png::EncodingError`. Nothing is known of
/// a value of it; it is only carried from the encoder to [`png_outcome`].
#[verifier::external_type_specification]
#[verifier::external_body]
pub struct ExEncodingError(png::EncodingError);

/// Encodes tightly packed RGBA pixels as a PNG image in memory.
///
/// Trusted: runs `png::Encoder` (`new`, `set_color`, `set_depth`,
/// `set_source_srgb`, `write_header`) and `png::Writer` (`write_image_data`,
/// `finish`) on a byte vector. The contract only gives the outcome its
/// name: the encoder is taken to produce the same bytes, or to fail, for
/// the same size and pixels. The pixel count is required to match the size
/// because the encoder multiplies row length and height before it compares
/// them with the buffer.
#[verifier::external_body]
fn png_encode_rgba8(width: u32, height: u32, pixels: &Vec<u8>) -> (encoded: Result<
    Vec<u8>,
    png::EncodingError,
>)
    requires
        width > 0,
        height > 0,
        pixels@.len() == 4 * width * height,
    ensures
        encoded matches Ok(bytes) ==> png_rgba8(width as nat, height as nat, pixels@) == Some(
            bytes@,
        ),
        encoded is Err ==> png_rgba8(width as nat, height as nat, pixels@) is None,
{
    let mut out: Vec<u8> = Vec::new();
    let mut encoder = png::Encoder::new(&mut out, width, height);
    encoder.set_color(png::ColorType::Rgba);
    encoder.set_depth(png::BitDepth::Eight);
    encoder.set_source_srgb(png::SrgbRenderingIntent::Perceptual);
    let mut writer = encoder.write_header()?;
    writer.write_image_data(pixels)?;
    writer.finish()?;
    Ok(out)
}

/// What the library reports for an outcome of the encoder: the bytes, or
/// [`PngError::Encoding`].
pub fn png_outcome(encoded: Result<Vec<u8>, png::EncodingError>) -> (out: Result<
    Vec<u8>,
    PngError,
>)
    ensures
        encoded matches Ok(bytes) ==> out == Ok::<Vec<u8>, PngError>(bytes),
        encoded is Err ==> out == Err::<Vec<u8>, PngError>(PngError::Encoding),
{
    match encoded {
        Ok(bytes) => Ok(bytes),
        Err(_) => Err(PngError::Encoding),
    }
}

/// The PNG image of a raster whose colours are premultiplied by alpha: the
/// pixels are converted to straight alpha, rows are packed, and the result
/// is encoded as eight-bit RGBA.
pub fn encode_bitmap_as_png(bitmap: &BitmapData) -> (out: Result<Vec<u8>, PngError>)
    ensures
        !bitmap.wf() ==> out == Err::<Vec<u8>, PngError>(PngError::InvalidBitmap),
        bitmap.wf() ==> match png_rgba8(
            bitmap.width as nat,
            bitmap.height as nat,
            bitmap.straight_rows(bitmap.height as nat),
        ) {
            Some(bytes) => out matches Ok(image) && image@ == bytes,
            None => out == Err::<Vec<u8>, PngError>(PngError::Encoding),
        },
{
    if !bitmap.is_valid() {
        return Err(PngError::InvalidBitmap);
    }
    let pixels = bitmap.straight_alpha_pixels();
    png_outcome(png_encode_rgba8(bitmap.width as u32, bitmap.height as u32, &pixels))
}

/// The file name of the image with the given sequence index: the base
/// name, the index in at least five decimal digits, and `.png`.
pub open spec fn png_filename(index: nat, base_name: Seq<char>) -> Seq<char> {
    base_name + zero_padded(index, 5) + ".png"@
}

/// Names the image file for a sequence index.
pub fn generate_png_filename(index: usize, base_name: &str) -> (name: String)
    ensures
        name@ == png_filename(index as nat, base_name@),
{
    let mut name = String::from_str(base_name);
    push_zero_padded(&mut name, index as u128, 5);
    name.append(".png");
    name
}

} // verus!
