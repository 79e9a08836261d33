//! Merging the palette-indexed rectangles of one decode event into a single
//! RGBA raster with source-over alpha semantics.

use crate::bitmap::{pixel_at, BitmapData, Rgba};
use vstd::prelude::*;

verus! {

/// The coordinate space that rectangle positions are relative to.
#[derive(Clone, Copy, Debug, PartialEq, Eq, Structural)]
pub struct Canvas {
    pub width: i32,
    pub height: i32,
}

/// A positioned rectangle of palette indices, one byte per pixel, with its
/// palette of ARGB32 entries. Row `r` starts at `r * stride` in `indices`.
#[derive(Clone, Debug)]
pub struct PaletteRect {
    pub x: i32,
    pub y: i32,
    pub w: i32,
    pub h: i32,
    pub stride: i32,
    pub indices: Vec<u8>,
    pub palette: Vec<u32>,
}

/// The composited raster of one decode event and its origin on the canvas.
#[derive(Clone, Debug)]
pub struct CompositeFrame {
    pub bitmap: BitmapData,
    pub x: i32,
    pub y: i32,
}

/// Unpacks an ARGB32 palette entry (`A << 24 | R << 16 | G << 8 | B`).
pub open spec fn argb_to_rgba(argb: u32) -> Rgba {
    Rgba {
        r: ((argb as int / 0x1_0000) % 0x100) as u8,
        g: ((argb as int / 0x100) % 0x100) as u8,
        b: (argb as int % 0x100) as u8,
        a: (argb as int / 0x100_0000) as u8,
    }
}

/// The fully transparent black pixel that a fresh raster is filled with.
pub open spec fn transparent() -> Rgba {
    Rgba { r: 0, g: 0, b: 0, a: 0 }
}

/// One colour channel of `src` at opacity `alpha` blended over `dst`:
/// `src * alpha / 255 + dst * (1 - alpha / 255)`, rounded down.
pub open spec fn blend_channel(src: u8, alpha: u8, dst: u8) -> u8 {
    ((src as int * alpha as int + dst as int * (255 - alpha as int)) / 255) as u8
}

/// The alpha that accumulates when opacity `alpha` is laid over `dst_alpha`:
/// `alpha + dst_alpha * (1 - alpha / 255)`, rounded down.
pub open spec fn blend_alpha(alpha: u8, dst_alpha: u8) -> u8 {
    (alpha as int + (dst_alpha as int * (255 - alpha as int)) / 255) as u8
}

/// Source-over compositing of one source pixel onto a destination pixel.
///
/// A transparent source leaves the destination alone; an opaque source, or
/// any visible source over a still transparent destination, replaces it;
/// otherwise the two are blended.
pub open spec fn over(src: Rgba, dst: Rgba) -> Rgba {
    if src.a == 0 {
        dst
    } else if src.a == 255 || dst.a == 0 {
        src
    } else {
        Rgba {
            r: blend_channel(src.r, src.a, dst.r),
            g: blend_channel(src.g, src.a, dst.g),
            b: blend_channel(src.b, src.a, dst.b),
            a: blend_alpha(src.a, dst.a),
        }
    }
}

impl PaletteRect {
    /// The rectangle lies on the canvas and its index buffer holds every row.
    pub open spec fn wf(&self, canvas: Canvas) -> bool {
        &&& 0 <= self.x
        &&& 0 <= self.y
        &&& 0 <= self.w
        &&& 0 <= self.h
        &&& self.x + self.w <= canvas.width
        &&& self.y + self.h <= canvas.height
        &&& self.w <= self.stride
        &&& self.stride * self.h <= self.indices@.len()
    }

    /// Whether the rectangle covers the canvas position `(px, py)`.
    pub open spec fn covers(&self, px: int, py: int) -> bool {
        self.x <= px < self.x + self.w && self.y <= py < self.y + self.h
    }

    /// The palette index stored for the canvas position `(px, py)`.
    pub open spec fn index_at(&self, px: int, py: int) -> int {
        self.indices@[(py - self.y) * self.stride + (px - self.x)] as int
    }

    /// The colour that the rectangle offers at the canvas position
    /// `(px, py)`: none outside the rectangle or where the palette index has
    /// no entry.
    pub open spec fn source_at(&self, px: int, py: int) -> Option<Rgba> {
        if self.covers(px, py) && self.index_at(px, py) < self.palette@.len() {
            Some(argb_to_rgba(self.palette@[self.index_at(px, py)]))
        } else {
            None
        }
    }
}

/// The colour at canvas position `(px, py)` after the first `n` rectangles
/// were laid down in order over transparent black.
pub open spec fn composite_at(rects: Seq<PaletteRect>, n: nat, px: int, py: int) -> Rgba
    decreases n,
{
    if n == 0 {
        transparent()
    } else {
        let below = composite_at(rects, (n - 1) as nat, px, py);
        match rects[n - 1].source_at(px, py) {
            Some(src) => over(src, below),
            None => below,
        }
    }
}

/// The smallest left edge among the first `n` rectangles.
pub open spec fn bbox_left(rects: Seq<PaletteRect>, n: nat) -> int
    decreases n,
{
    if n <= 1 {
        rects[0].x as int
    } else {
        let rest = bbox_left(rects, (n - 1) as nat);
        if rects[n - 1].x < rest {
            rects[n - 1].x as int
        } else {
            rest
        }
    }
}

/// The smallest top edge among the first `n` rectangles.
pub open spec fn bbox_top(rects: Seq<PaletteRect>, n: nat) -> int
    decreases n,
{
    if n <= 1 {
        rects[0].y as int
    } else {
        let rest = bbox_top(rects, (n - 1) as nat);
        if rects[n - 1].y < rest {
            rects[n - 1].y as int
        } else {
            rest
        }
    }
}

/// The largest right edge (`x + w`) among the first `n` rectangles.
pub open spec fn bbox_right(rects: Seq<PaletteRect>, n: nat) -> int
    decreases n,
{
    if n <= 1 {
        rects[0].x + rects[0].w
    } else {
        let rest = bbox_right(rects, (n - 1) as nat);
        if rects[n - 1].x + rects[n - 1].w > rest {
            rects[n - 1].x + rects[n - 1].w
        } else {
            rest
        }
    }
}

/// The largest bottom edge (`y + h`) among the first `n` rectangles.
pub open spec fn bbox_bottom(rects: Seq<PaletteRect>, n: nat) -> int
    decreases n,
{
    if n <= 1 {
        rects[0].y + rects[0].h
    } else {
        let rest = bbox_bottom(rects, (n - 1) as nat);
        if rects[n - 1].y + rects[n - 1].h > rest {
            rects[n - 1].y + rects[n - 1].h
        } else {
            rest
        }
    }
}

/// Width of the union bounding box of all rectangles.
pub open spec fn bbox_width(rects: Seq<PaletteRect>) -> int {
    bbox_right(rects, rects.len()) - bbox_left(rects, rects.len())
}

/// Height of the union bounding box of all rectangles.
pub open spec fn bbox_height(rects: Seq<PaletteRect>) -> int {
    bbox_bottom(rects, rects.len()) - bbox_top(rects, rects.len())
}

/// Every rectangle is well formed on the canvas.
pub open spec fn all_wf(rects: Seq<PaletteRect>, canvas: Canvas) -> bool {
    forall|k: int| 0 <= k < rects.len() ==> (#[trigger] rects[k]).wf(canvas)
}

/// Some position of the bounding box ends up with a non-zero alpha.
pub open spec fn any_visible(rects: Seq<PaletteRect>) -> bool {
    exists|i: int, j: int|
        0 <= i < bbox_width(rects) && 0 <= j < bbox_height(rects) && (#[trigger] composite_at(
            rects,
            rects.len(),
            bbox_left(rects, rects.len()) + i,
            bbox_top(rects, rects.len()) + j,
        )).a != 0
}

/// The events for which a composite frame is produced: at least one
/// rectangle, all of them well formed, a bounding box with an area whose row
/// pitch fits an `i32`, and at least one visible pixel.
pub open spec fn composable(rects: Seq<PaletteRect>, canvas: Canvas) -> bool {
    &&& rects.len() > 0
    &&& all_wf(rects, canvas)
    &&& bbox_width(rects) > 0
    &&& bbox_height(rects) > 0
    &&& 4 * bbox_width(rects) <= i32::MAX
    &&& any_visible(rects)
}

/// `frame` is the composite of `rects`: it spans their union bounding box,
/// its rows are tightly packed, and each pixel is the source-over result of
/// the rectangles in order.
pub open spec fn composes_to(rects: Seq<PaletteRect>, frame: CompositeFrame) -> bool {
    &&& frame.x == bbox_left(rects, rects.len())
    &&& frame.y == bbox_top(rects, rects.len())
    &&& frame.bitmap.width == bbox_width(rects)
    &&& frame.bitmap.height == bbox_height(rects)
    &&& frame.bitmap.stride == 4 * frame.bitmap.width
    &&& frame.bitmap.data@.len() == frame.bitmap.height * frame.bitmap.stride
    &&& forall|i: int, j: int|
        0 <= i < frame.bitmap.width && 0 <= j < frame.bitmap.height ==> #[trigger] frame.bitmap.pixel(
            i,
            j,
        ) == composite_at(rects, rects.len(), frame.x + i, frame.y + j)
}

/// Unpacks an ARGB32 palette entry.
pub fn unpack_argb(argb: u32) -> (px: Rgba)
    ensures
        px == argb_to_rgba(argb),
{
    Rgba {
        r: ((argb / 0x1_0000) % 0x100) as u8,
        g: ((argb / 0x100) % 0x100) as u8,
        b: (argb % 0x100) as u8,
        a: (argb / 0x100_0000) as u8,
    }
}

fn blend_channel_exec(src: u8, alpha: u8, dst: u8) -> (out: u8)
    ensures
        out == blend_channel(src, alpha, dst),
{
    let s: u32 = src as u32;
    let a: u32 = alpha as u32;
    let d: u32 = dst as u32;
    assert(s * a + d * (255 - a) <= 255 * 255) by (nonlinear_arith)
        requires
            s <= 255,
            a <= 255,
            d <= 255,
    ;
    assert(s * a <= 255 * 255) by (nonlinear_arith)
        requires
            s <= 255,
            a <= 255,
    ;
    assert(d * (255 - a) <= 255 * 255) by (nonlinear_arith)
        requires
            d <= 255,
            a <= 255,
    ;
    ((s * a + d * (255 - a)) / 255) as u8
}

fn blend_alpha_exec(alpha: u8, dst_alpha: u8) -> (out: u8)
    ensures
        out == blend_alpha(alpha, dst_alpha),
{
    let a: u32 = alpha as u32;
    let d: u32 = dst_alpha as u32;
    assert(d * (255 - a) <= 255 * (255 - a)) by (nonlinear_arith)
        requires
            d <= 255,
            a <= 255,
    ;
    (a + (d * (255 - a)) / 255) as u8
}

/// Lays one source pixel over a destination pixel.
pub fn composite_pixel(src: Rgba, dst: Rgba) -> (out: Rgba)
    ensures
        out == over(src, dst),
{
    if src.a == 0 {
        dst
    } else if src.a == 255 || dst.a == 0 {
        src
    } else {
        Rgba {
            r: blend_channel_exec(src.r, src.a, dst.r),
            g: blend_channel_exec(src.g, src.a, dst.g),
            b: blend_channel_exec(src.b, src.a, dst.b),
            a: blend_alpha_exec(src.a, dst.a),
        }
    }
}

/// Positions inside a rectangle map to offsets inside its index buffer.
proof fn lemma_index_in_buffer(dx: int, dy: int, w: int, h: int, stride: int)
    by (nonlinear_arith)
    requires
        0 <= dx < w,
        0 <= dy < h,
        w <= stride,
    ensures
        0 <= dy * stride,
        dy * stride + dx < stride * h,
{
}

/// In a row-major raster, an earlier pixel ends before a later one begins.
proof fn lemma_row_major_order(i1: int, j1: int, i2: int, j2: int, width: int, stride: int)
    by (nonlinear_arith)
    requires
        0 <= i1 < width,
        0 <= i2 <= width,
        0 <= j1,
        0 <= j2,
        4 * width <= stride,
        j1 < j2 || (j1 == j2 && i1 < i2),
    ensures
        0 <= j1 * stride + 4 * i1,
        j1 * stride + 4 * i1 + 4 <= j2 * stride + 4 * i2,
{
}

impl PaletteRect {
    /// Checks the rectangle against the canvas and its own buffer.
    pub fn is_well_formed(&self, canvas: &Canvas) -> (ok: bool)
        ensures
            ok == self.wf(*canvas),
    {
        if self.x < 0 || self.y < 0 || self.w < 0 || self.h < 0 {
            return false;
        }
        if self.x as i64 + self.w as i64 > canvas.width as i64 {
            return false;
        }
        if self.y as i64 + self.h as i64 > canvas.height as i64 {
            return false;
        }
        if self.w > self.stride {
            return false;
        }
        let stride: u64 = self.stride as u64;
        let h: u64 = self.h as u64;
        assert(stride * h <= 0x8000_0000 * 0x8000_0000) by (nonlinear_arith)
            requires
                stride <= 0x8000_0000,
                h <= 0x8000_0000,
        ;
        stride * h <= self.indices.len() as u64
    }

    /// The colour that the rectangle offers at a canvas position.
    pub fn source_pixel(&self, canvas: &Canvas, px: i32, py: i32) -> (src: Option<Rgba>)
        requires
            self.wf(*canvas),
        ensures
            src == self.source_at(px as int, py as int),
    {
        if px < self.x || py < self.y {
            return None;
        }
        let dx: i64 = px as i64 - self.x as i64;
        let dy: i64 = py as i64 - self.y as i64;
        if dx >= self.w as i64 || dy >= self.h as i64 {
            return None;
        }
        proof {
            lemma_index_in_buffer(
                dx as int,
                dy as int,
                self.w as int,
                self.h as int,
                self.stride as int,
            );
        }
        let row: u64 = dy as u64;
        let pitch: u64 = self.stride as u64;
        assert(row * pitch == dy * self.stride) by (nonlinear_arith)
            requires
                row == dy,
                pitch == self.stride,
        ;
        let held: usize = self.indices.len();
        let offset: u64 = row * pitch + dx as u64;
        assert(offset < held);
        let index: usize = self.indices[offset as usize] as usize;
        if index < self.palette.len() {
            Some(unpack_argb(self.palette[index]))
        } else {
            None
        }
    }
}

/// The union bounding box of the rectangles as `(left, top, right, bottom)`.
fn bounding_box(rects: &Vec<PaletteRect>, canvas: &Canvas) -> (bounds: (i32, i32, i32, i32))
    requires
        rects@.len() > 0,
        all_wf(rects@, *canvas),
    ensures
        bounds.0 == bbox_left(rects@, rects@.len()),
        bounds.1 == bbox_top(rects@, rects@.len()),
        bounds.2 == bbox_right(rects@, rects@.len()),
        bounds.3 == bbox_bottom(rects@, rects@.len()),
        0 <= bounds.0 <= bounds.2 <= canvas.width,
        0 <= bounds.1 <= bounds.3 <= canvas.height,
{
    assert(rects@[0].wf(*canvas));
    let mut left: i32 = rects[0].x;
    let mut top: i32 = rects[0].y;
    let mut right: i32 = rects[0].x + rects[0].w;
    let mut bottom: i32 = rects[0].y + rects[0].h;
    let mut k: usize = 1;
    while k < rects.len()
        invariant
            1 <= k <= rects@.len(),
            all_wf(rects@, *canvas),
            left == bbox_left(rects@, k as nat),
            top == bbox_top(rects@, k as nat),
            right == bbox_right(rects@, k as nat),
            bottom == bbox_bottom(rects@, k as nat),
            0 <= left <= right <= canvas.width,
            0 <= top <= bottom <= canvas.height,
        decreases rects@.len() - k,
    {
        assert(rects@[k as int].wf(*canvas));
        let rect = &rects[k];
        if rect.x < left {
            left = rect.x;
        }
        if rect.y < top {
            top = rect.y;
        }
        if rect.x + rect.w > right {
            right = rect.x + rect.w;
        }
        if rect.y + rect.h > bottom {
            bottom = rect.y + rect.h;
        }
        k += 1;
    }
    (left, top, right, bottom)
}

/// The colour at one canvas position after all rectangles were laid down.
fn composite_position(rects: &Vec<PaletteRect>, canvas: &Canvas, px: i32, py: i32) -> (out: Rgba)
    requires
        all_wf(rects@, *canvas),
    ensures
        out == composite_at(rects@, rects@.len(), px as int, py as int),
{
    let mut acc = Rgba { r: 0, g: 0, b: 0, a: 0 };
    let mut k: usize = 0;
    while k < rects.len()
        invariant
            k <= rects@.len(),
            all_wf(rects@, *canvas),
            acc == composite_at(rects@, k as nat, px as int, py as int),
        decreases rects@.len() - k,
    {
        assert(rects@[k as int].wf(*canvas));
        match rects[k].source_pixel(canvas, px, py) {
            Some(src) => {
                acc = composite_pixel(src, acc);
            },
            None => {},
        }
        k += 1;
    }
    acc
}

/// Whether every rectangle is well formed on the canvas.
fn all_well_formed(rects: &Vec<PaletteRect>, canvas: &Canvas) -> (ok: bool)
    ensures
        ok == all_wf(rects@, *canvas),
{
    let mut k: usize = 0;
    while k < rects.len()
        invariant
            k <= rects@.len(),
            forall|m: int| 0 <= m < k ==> (#[trigger] rects@[m]).wf(*canvas),
        decreases rects@.len() - k,
    {
        if !rects[k].is_well_formed(canvas) {
            return false;
        }
        k += 1;
    }
    true
}

/// Composites the rectangles of one decode event, in the order given, into
/// a single raster that spans their union bounding box.
///
/// No frame is produced for an event without rectangles, with a malformed
/// rectangle, with an empty bounding box, with a bounding box too wide for
/// the row pitch to be an `i32`, or without any visible pixel.
pub fn composite(rects: &Vec<PaletteRect>, canvas: &Canvas) -> (out: Option<CompositeFrame>)
    ensures
        out is Some <==> composable(rects@, *canvas),
        out matches Some(frame) ==> composes_to(rects@, frame),
{
    if rects.len() == 0 {
        return None;
    }
    if !all_well_formed(rects, canvas) {
        return None;
    }
    let (left, top, right, bottom) = bounding_box(rects, canvas);
    let width: i32 = right - left;
    let height: i32 = bottom - top;
    if width == 0 || height == 0 {
        return None;
    }
    if width > i32::MAX / 4 {
        return None;
    }
    let stride: i32 = 4 * width;
    let ghost n = rects@.len();
    let mut data: Vec<u8> = Vec::new();
    let mut visible = false;
    let mut j: i32 = 0;
    while j < height
        invariant
            0 <= j <= height,
            0 < width,
            stride == 4 * width,
            n == rects@.len(),
            all_wf(rects@, *canvas),
            0 <= left,
            left + width <= canvas.width,
            0 <= top,
            top + height <= canvas.height,
            data@.len() == j * stride,
            forall|ii: int, jj: int|
                0 <= ii < width && 0 <= jj < j ==> #[trigger] pixel_at(data@, stride as int, ii, jj)
                    == composite_at(rects@, n, left + ii, top + jj),
            visible <==> exists|ii: int, jj: int|
                0 <= ii < width && 0 <= jj < j && (#[trigger] composite_at(
                    rects@,
                    n,
                    left + ii,
                    top + jj,
                )).a != 0,
        decreases height - j,
    {
        let mut i: i32 = 0;
        while i < width
            invariant
                0 <= i <= width,
                0 <= j < height,
                stride == 4 * width,
                n == rects@.len(),
                all_wf(rects@, *canvas),
                0 <= left,
                left + width <= canvas.width,
                0 <= top,
                top + height <= canvas.height,
                data@.len() == j * stride + 4 * i,
                forall|ii: int, jj: int|
                    0 <= ii < width && 0 <= jj && (jj < j || (jj == j && ii < i))
                        ==> #[trigger] pixel_at(data@, stride as int, ii, jj) == composite_at(
                        rects@,
                        n,
                        left + ii,
                        top + jj,
                    ),
                visible <==> exists|ii: int, jj: int|
                    0 <= ii < width && 0 <= jj && (jj < j || (jj == j && ii < i))
                        && (#[trigger] composite_at(rects@, n, left + ii, top + jj)).a != 0,
            decreases width - i,
        {
            let px = composite_position(rects, canvas, left + i, top + j);
            let ghost before = data@;
            let ghost was_visible = visible;
            data.push(px.r);
            data.push(px.g);
            data.push(px.b);
            data.push(px.a);
            if px.a != 0 {
                visible = true;
            }
            proof {
                assert forall|ii: int, jj: int|
                    0 <= ii < width && 0 <= jj && (jj < j || (jj == j && ii < i + 1)) implies #[trigger] pixel_at(
                    data@,
                    stride as int,
                    ii,
                    jj,
                ) == composite_at(rects@, n, left + ii, top + jj) by {
                    if jj < j || ii < i {
                        lemma_row_major_order(ii, jj, i as int, j as int, width as int, stride as int);
                        assert(pixel_at(data@, stride as int, ii, jj) == pixel_at(
                            before,
                            stride as int,
                            ii,
                            jj,
                        ));
                    }
                }
                if px.a != 0 {
                    assert(composite_at(rects@, n, left + i, top + j).a != 0);
                }
                if was_visible {
                    let (wi, wj) = choose|ii: int, jj: int|
                        0 <= ii < width && 0 <= jj && (jj < j || (jj == j && ii < i))
                            && (#[trigger] composite_at(rects@, n, left + ii, top + jj)).a != 0;
                    assert(composite_at(rects@, n, left + wi, top + wj).a != 0);
                }
            }
            i += 1;
        }
        proof {
            assert(j * stride + 4 * width == (j + 1) * stride) by (nonlinear_arith)
                requires
                    stride == 4 * width,
            ;
        }
        j += 1;
    }
    if !visible {
        return None;
    }
    let frame = CompositeFrame {
        bitmap: BitmapData { data, width, height, stride },
        x: left,
        y: top,
    };
    Some(frame)
}

/// A single rectangle whose pixels are all opaque is reproduced exactly: the
/// bounding box is the rectangle, and every pixel of the composite is the
/// palette colour that the rectangle holds there.
pub proof fn lemma_single_opaque_rect(rect: PaletteRect, canvas: Canvas)
    requires
        rect.wf(canvas),
        rect.w > 0,
        rect.h > 0,
        4 * rect.w <= i32::MAX,
        forall|px: int, py: int|
            rect.covers(px, py) ==> (#[trigger] rect.source_at(px, py)) is Some && rect.source_at(
                px,
                py,
            )->0.a == 255,
    ensures
        bbox_left(seq![rect], 1) == rect.x,
        bbox_top(seq![rect], 1) == rect.y,
        bbox_width(seq![rect]) == rect.w,
        bbox_height(seq![rect]) == rect.h,
        composable(seq![rect], canvas),
        forall|i: int, j: int|
            0 <= i < rect.w && 0 <= j < rect.h ==> #[trigger] composite_at(
                seq![rect],
                1,
                rect.x + i,
                rect.y + j,
            ) == argb_to_rgba(rect.palette@[rect.index_at(rect.x + i, rect.y + j)]),
        forall|frame: CompositeFrame, i: int, j: int|
            composes_to(seq![rect], frame) && 0 <= i < rect.w && 0 <= j < rect.h
                ==> #[trigger] frame.bitmap.pixel(i, j) == argb_to_rgba(
                rect.palette@[rect.index_at(rect.x + i, rect.y + j)],
            ),
{
    let rects = seq![rect];
    assert(rects.len() == 1);
    assert(rects[0] == rect);
    reveal_with_fuel(composite_at, 2);
    assert forall|i: int, j: int| 0 <= i < rect.w && 0 <= j < rect.h implies #[trigger] composite_at(
        rects,
        1,
        rect.x + i,
        rect.y + j,
    ) == argb_to_rgba(rect.palette@[rect.index_at(rect.x + i, rect.y + j)]) by {
        assert(rect.covers(rect.x + i, rect.y + j));
        assert(rect.source_at(rect.x + i, rect.y + j) is Some);
    }
    assert(rect.covers(rect.x + 0, rect.y + 0));
    assert(rect.source_at(rect.x + 0, rect.y + 0) is Some);
    assert(composite_at(
        rects,
        rects.len(),
        bbox_left(rects, rects.len()) + 0,
        bbox_top(rects, rects.len()) + 0,
    ).a != 0);
}

/// A source of alpha 128 over an opaque destination gives, in each colour
/// channel, the mean of the two within integer rounding, and stays opaque.
pub proof fn lemma_half_alpha_over_opaque(src: Rgba, dst: Rgba)
    requires
        src.a == 128,
        dst.a == 255,
    ensures
        over(src, dst).a == 255,
        over(src, dst).r == (128 * src.r + 127 * dst.r) / 255,
        over(src, dst).g == (128 * src.g + 127 * dst.g) / 255,
        over(src, dst).b == (128 * src.b + 127 * dst.b) / 255,
        src.r + dst.r - 2 <= 2 * over(src, dst).r <= src.r + dst.r + 1,
        src.g + dst.g - 2 <= 2 * over(src, dst).g <= src.g + dst.g + 1,
        src.b + dst.b - 2 <= 2 * over(src, dst).b <= src.b + dst.b + 1,
{
}

/// Where the rectangles laid down so far left an opaque pixel and the next
/// rectangle offers a colour of alpha 128 there, the pixel becomes, in each
/// colour channel, the mean of the two within integer rounding, and stays
/// opaque.
pub proof fn lemma_half_alpha_rect_over_opaque(rects: Seq<PaletteRect>, n: nat, px: int, py: int)
    requires
        0 < n <= rects.len(),
        composite_at(rects, (n - 1) as nat, px, py).a == 255,
        rects[n - 1].source_at(px, py) matches Some(src) && src.a == 128,
    ensures
        ({
            let below = composite_at(rects, (n - 1) as nat, px, py);
            let src = rects[n - 1].source_at(px, py)->0;
            let out = composite_at(rects, n, px, py);
            &&& out.a == 255
            &&& out.r == (128 * src.r + 127 * below.r) / 255
            &&& out.g == (128 * src.g + 127 * below.g) / 255
            &&& out.b == (128 * src.b + 127 * below.b) / 255
            &&& src.r + below.r - 2 <= 2 * out.r <= src.r + below.r + 1
            &&& src.g + below.g - 2 <= 2 * out.g <= src.g + below.g + 1
            &&& src.b + below.b - 2 <= 2 * out.b <= src.b + below.b + 1
        }),
{
    lemma_half_alpha_over_opaque(
        rects[n - 1].source_at(px, py)->0,
        composite_at(rects, (n - 1) as nat, px, py),
    );
}

/// Rectangle order is the only thing besides the rectangles themselves that
/// a composite depends on: a transparent source never changes a pixel, and
/// a visible source always leaves a visible pixel.
pub proof fn lemma_over_keeps_visibility(src: Rgba, dst: Rgba)
    ensures
        src.a == 0 ==> over(src, dst) == dst,
        (src.a != 0 || dst.a != 0) ==> over(src, dst).a != 0,
        src.a == 255 ==> over(src, dst) == src,
{
    let a = src.a as int;
    let d = dst.a as int;
    assert(0 <= d * (255 - a) <= 255 * (255 - a)) by (nonlinear_arith)
        requires
            0 <= d <= 255,
            0 <= a <= 255,
    ;
}

} // verus!
