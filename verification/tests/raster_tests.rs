use arib2bdnxml::bitmap::{
    encode_bitmap_as_png, png_outcome, unpremultiply, BitmapData, PngError, Rgba,
};
use arib2bdnxml::compositor::{composite, composite_pixel, unpack_argb, Canvas, PaletteRect};

const CANVAS: Canvas = Canvas { width: 1920, height: 1080 };

fn decode(bytes: &[u8]) -> (u32, u32, Vec<u8>) {
    let decoder = png::Decoder::new(bytes);
    let mut reader = decoder.read_info().unwrap();
    let mut buf = vec![0u8; reader.output_buffer_size()];
    let info = reader.next_frame(&mut buf).unwrap();
    assert_eq!(info.color_type, png::ColorType::Rgba);
    assert_eq!(info.bit_depth, png::BitDepth::Eight);
    buf.truncate(info.buffer_size());
    (info.width, info.height, buf)
}

#[test]
fn straight_alpha_of_a_half_transparent_red() {
    assert_eq!(unpremultiply(128, 128), 255);
    assert_eq!(unpremultiply(0, 128), 0);
    let bitmap = BitmapData { data: vec![128, 0, 0, 128], width: 1, height: 1, stride: 4 };
    assert_eq!(bitmap.straight_alpha_pixels(), vec![255, 0, 0, 128]);
    let bytes = encode_bitmap_as_png(&bitmap).unwrap();
    assert_eq!(decode(&bytes), (1, 1, vec![255, 0, 0, 128]));
}

#[test]
fn straight_alpha_channels() {
    assert_eq!(unpremultiply(5, 0), 0);
    assert_eq!(unpremultiply(255, 0), 0);
    assert_eq!(unpremultiply(77, 255), 77);
    assert_eq!(unpremultiply(64, 128), 128);
    assert_eq!(unpremultiply(200, 100), 255);
    assert_eq!(unpremultiply(1, 3), 85);
    assert_eq!(unpremultiply(1, 2), 128);
    assert_eq!(unpremultiply(10, 51), 50);
}

#[test]
fn png_of_a_padded_raster() {
    let bitmap = BitmapData {
        data: vec![
            10, 20, 30, 255, 0, 0, 0, 0, 99, 99, 99, 99, //
            64, 32, 0, 128, 9, 9, 9, 0, 98, 98, 98, 98, //
            1, 2, 3, 255, 50, 50, 50, 50,
        ],
        width: 2,
        height: 3,
        stride: 12,
    };
    assert!(bitmap.is_valid());
    let expected = vec![
        10, 20, 30, 255, 0, 0, 0, 0, //
        128, 64, 0, 128, 0, 0, 0, 0, //
        1, 2, 3, 255, 255, 255, 255, 50,
    ];
    assert_eq!(bitmap.straight_alpha_pixels(), expected);
    let bytes = encode_bitmap_as_png(&bitmap).unwrap();
    assert_eq!(&bytes[..8], &[0x89, b'P', b'N', b'G', 0x0d, 0x0a, 0x1a, 0x0a]);
    assert_eq!(decode(&bytes), (2, 3, expected));
}

#[test]
fn rasters_that_are_no_image() {
    let cases = [
        BitmapData { data: vec![], width: 0, height: 0, stride: 0 },
        BitmapData { data: vec![0; 16], width: 0, height: 2, stride: 8 },
        BitmapData { data: vec![0; 16], width: 2, height: 0, stride: 8 },
        BitmapData { data: vec![0; 16], width: -2, height: 2, stride: 8 },
        BitmapData { data: vec![0; 16], width: 2, height: 2, stride: 7 },
        BitmapData { data: vec![0; 15], width: 2, height: 2, stride: 8 },
        BitmapData { data: vec![0; 16], width: 2, height: 2, stride: -8 },
        BitmapData { data: vec![0; 16], width: i32::MAX, height: 1, stride: i32::MAX },
    ];
    for bitmap in cases.iter() {
        assert!(!bitmap.is_valid());
        assert_eq!(encode_bitmap_as_png(bitmap), Err(PngError::InvalidBitmap));
    }
    let tight = BitmapData { data: vec![0; 16], width: 2, height: 2, stride: 8 };
    assert!(tight.is_valid());
    assert!(encode_bitmap_as_png(&tight).is_ok());
}

#[test]
fn encoder_outcomes() {
    assert_eq!(png_outcome(Ok(vec![1, 2, 3])), Ok(vec![1, 2, 3]));
    assert_eq!(png_outcome(Err(png::EncodingError::LimitsExceeded)), Err(PngError::Encoding));
}

#[test]
fn palette_entries() {
    assert_eq!(unpack_argb(0x8011_2233), Rgba { r: 0x11, g: 0x22, b: 0x33, a: 0x80 });
    assert_eq!(unpack_argb(0), Rgba { r: 0, g: 0, b: 0, a: 0 });
    assert_eq!(unpack_argb(0xffff_ffff), Rgba { r: 255, g: 255, b: 255, a: 255 });
    assert_eq!(unpack_argb(0xff00_0001), Rgba { r: 0, g: 0, b: 1, a: 255 });
}

#[test]
fn source_over_rule() {
    let dst = Rgba { r: 100, g: 0, b: 255, a: 255 };
    let clear = Rgba { r: 0, g: 0, b: 0, a: 0 };
    // A transparent source writes nothing.
    assert_eq!(composite_pixel(Rgba { r: 9, g: 9, b: 9, a: 0 }, dst), dst);
    // An opaque source replaces.
    let opaque = Rgba { r: 1, g: 2, b: 3, a: 255 };
    assert_eq!(composite_pixel(opaque, dst), opaque);
    // A visible source over a transparent destination replaces.
    let half = Rgba { r: 200, g: 0, b: 0, a: 128 };
    assert_eq!(composite_pixel(half, clear), half);
    // Otherwise the two are blended.
    assert_eq!(composite_pixel(half, dst), Rgba { r: 150, g: 0, b: 127, a: 255 });
    let faint = Rgba { r: 255, g: 255, b: 255, a: 1 };
    let low = Rgba { r: 0, g: 0, b: 0, a: 100 };
    assert_eq!(composite_pixel(faint, low), Rgba { r: 1, g: 1, b: 1, a: 100 });
}

#[test]
fn half_alpha_over_opaque_is_the_mean() {
    for s in [0u8, 1, 50, 128, 200, 255] {
        for d in [0u8, 1, 77, 128, 254, 255] {
            let out = composite_pixel(
                Rgba { r: s, g: s, b: s, a: 128 },
                Rgba { r: d, g: d, b: d, a: 255 },
            );
            assert_eq!(out.a, 255);
            assert_eq!(out.r as u32, (128 * s as u32 + 127 * d as u32) / 255);
            let doubled = 2 * out.r as i32;
            let sum = s as i32 + d as i32;
            assert!(sum - 2 <= doubled && doubled <= sum + 1);
            assert_eq!(out.g, out.r);
            assert_eq!(out.b, out.r);
        }
    }
}

fn opaque_rect() -> PaletteRect {
    PaletteRect {
        x: 10,
        y: 20,
        w: 2,
        h: 2,
        stride: 3,
        indices: vec![0, 1, 9, 2, 3, 9],
        palette: vec![0xffff_0000, 0xff00_ff00, 0xff00_00ff, 0xff10_2030],
    }
}

#[test]
fn single_opaque_rectangle_is_reproduced() {
    let frame = composite(&vec![opaque_rect()], &CANVAS).unwrap();
    assert_eq!((frame.x, frame.y), (10, 20));
    assert_eq!((frame.bitmap.width, frame.bitmap.height, frame.bitmap.stride), (2, 2, 8));
    assert_eq!(
        frame.bitmap.data,
        vec![255, 0, 0, 255, 0, 255, 0, 255, 0, 0, 255, 255, 0x10, 0x20, 0x30, 255]
    );
}

#[test]
fn overlapping_rectangles_are_blended_in_order() {
    let below = PaletteRect {
        x: 0,
        y: 0,
        w: 2,
        h: 1,
        stride: 2,
        indices: vec![0, 0],
        palette: vec![0xffff_0000],
    };
    let above = PaletteRect {
        x: 1,
        y: 0,
        w: 2,
        h: 1,
        stride: 2,
        indices: vec![0, 0],
        palette: vec![0x8000_00c8],
    };
    let frame = composite(&vec![below.clone(), above.clone()], &CANVAS).unwrap();
    assert_eq!((frame.x, frame.y, frame.bitmap.width, frame.bitmap.height), (0, 0, 3, 1));
    assert_eq!(frame.bitmap.data, vec![255, 0, 0, 255, 127, 0, 100, 255, 0, 0, 200, 128]);
    // In the other order the opaque rectangle covers what it overlaps.
    let frame = composite(&vec![above, below], &CANVAS).unwrap();
    assert_eq!(frame.bitmap.data, vec![255, 0, 0, 255, 255, 0, 0, 255, 0, 0, 200, 128]);
}

#[test]
fn bounding_box_spans_all_rectangles() {
    let a = PaletteRect {
        x: 5,
        y: 7,
        w: 1,
        h: 1,
        stride: 1,
        indices: vec![0],
        palette: vec![0xff01_0203],
    };
    let b = PaletteRect {
        x: 7,
        y: 5,
        w: 1,
        h: 1,
        stride: 1,
        indices: vec![1],
        palette: vec![0, 0xff04_0506],
    };
    let frame = composite(&vec![a, b], &CANVAS).unwrap();
    assert_eq!((frame.x, frame.y, frame.bitmap.width, frame.bitmap.height), (5, 5, 3, 3));
    let mut expected = vec![0u8; 36];
    expected[8..12].copy_from_slice(&[4, 5, 6, 255]);
    expected[24..28].copy_from_slice(&[1, 2, 3, 255]);
    assert_eq!(frame.bitmap.data, expected);
}

#[test]
fn indices_without_a_palette_entry_write_nothing() {
    let rect = PaletteRect {
        x: 0,
        y: 0,
        w: 2,
        h: 1,
        stride: 2,
        indices: vec![5, 0],
        palette: vec![0xff01_0203],
    };
    let frame = composite(&vec![rect], &CANVAS).unwrap();
    assert_eq!(frame.bitmap.data, vec![0, 0, 0, 0, 1, 2, 3, 255]);
}

#[test]
fn events_without_a_frame() {
    assert!(composite(&vec![], &CANVAS).is_none());
    let mut transparent = opaque_rect();
    transparent.palette = vec![0x00ff_ffff; 4];
    assert!(composite(&vec![transparent], &CANVAS).is_none());
    let mut flat = opaque_rect();
    flat.h = 0;
    assert!(composite(&vec![flat], &CANVAS).is_none());
    let mut thin = opaque_rect();
    thin.w = 0;
    assert!(composite(&vec![thin], &CANVAS).is_none());
    let mut short = opaque_rect();
    short.indices = vec![0, 1, 9, 2, 3];
    assert!(!short.is_well_formed(&CANVAS));
    assert!(composite(&vec![short], &CANVAS).is_none());
    let mut outside = opaque_rect();
    outside.x = 1919;
    assert!(composite(&vec![outside], &CANVAS).is_none());
    let mut negative = opaque_rect();
    negative.y = -1;
    assert!(composite(&vec![negative.clone()], &CANVAS).is_none());
    assert!(composite(&vec![opaque_rect(), negative], &CANVAS).is_none());
    let mut narrow = opaque_rect();
    narrow.stride = 1;
    assert!(composite(&vec![narrow], &CANVAS).is_none());
    assert!(opaque_rect().is_well_formed(&CANVAS));
    assert!(composite(&vec![opaque_rect()], &Canvas { width: 12, height: 22 }).is_some());
    assert!(composite(&vec![opaque_rect()], &Canvas { width: 11, height: 22 }).is_none());
}

#[test]
fn source_pixels() {
    let rect = opaque_rect();
    assert_eq!(rect.source_pixel(&CANVAS, 11, 21), Some(Rgba { r: 0x10, g: 0x20, b: 0x30, a: 255 }));
    assert_eq!(rect.source_pixel(&CANVAS, 10, 20), Some(Rgba { r: 255, g: 0, b: 0, a: 255 }));
    assert_eq!(rect.source_pixel(&CANVAS, 12, 20), None);
    assert_eq!(rect.source_pixel(&CANVAS, 9, 20), None);
}
