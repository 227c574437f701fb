use vstd::prelude::*;
use crate::placement::{placed, law_image_drawn_in_place, image_cut_ok, image_cols_ok};
use crate::frame_buffer::{
    FrameBuffer, Rect, hi, lo, col, row, idx, on_screen, lemma_idx, lemma_nibble_bound, put,
    lemma_set_byte, swap_nibbles, pixels, BUFFER_SIZE, N_PIXELS,
};

verus! {

/// Walk over packed 4-bit image bytes the way the image renderer does,
/// starting at byte `i` and at the screen point `(x, y)`.
///
/// Each byte holds two pixels, the high 4 bits first. After each pixel,
/// the point moves right; when it reaches `right_x`, it moves to `left_x`
/// on the next line and `skip` bytes of the image are skipped.
/// Pixels of the transparent color and pixels outside of the screen are not drawn.
pub open spec fn walk(
    pix: Seq<u8>,
    img: Seq<u8>,
    i: int,
    x: int,
    y: int,
    transp: u8,
    left_x: int,
    right_x: int,
    skip: int,
) -> Seq<u8>
    decreases (if i < img.len() { img.len() - i } else { 0 }),
{
    if i < 0 || i >= img.len() || skip < 0 {
        pix
    } else {
        let b = img[i];
        let pix1 = put(pix, x, y, hi(b), transp);
        let x1 = if x + 1 >= right_x { left_x } else { x + 1 };
        let y1 = if x + 1 >= right_x { y + 1 } else { y };
        let i1 = if x + 1 >= right_x { i + skip } else { i };
        let pix2 = put(pix1, x1, y1, lo(b), transp);
        let x2 = if x1 + 1 >= right_x { left_x } else { x1 + 1 };
        let y2 = if x1 + 1 >= right_x { y1 + 1 } else { y1 };
        let i2 = if x1 + 1 >= right_x { i1 + skip } else { i1 };
        walk(pix2, img, i2 + 1, x2, y2, transp, left_x, right_x, skip)
    }
}

/// Draw the bytes `[start, end)` of a 4-bit image with the walk described in [`walk`].
fn draw_walk(
    frame: &mut FrameBuffer,
    bytes: &[u8],
    start: usize,
    end: usize,
    x0: i32,
    y0: i32,
    transp: u8,
    left_x: i32,
    right_x: i32,
    skip: usize,
)
    requires
        old(frame).wf(),
        start <= end <= bytes@.len(),
        end + 2 * skip + 2 <= usize::MAX,
        x0 < i32::MAX,
        left_x < i32::MAX,
        y0 + 2 * (end - start) + 2 <= i32::MAX,
    ensures
        final(frame).wf(),
        final(frame).palette == old(frame).palette,
        final(frame).dirty == old(frame).dirty,
        final(frame).view_pixels() == walk(
            old(frame).view_pixels(),
            bytes@.subrange(start as int, end as int),
            0,
            x0 as int,
            y0 as int,
            transp,
            left_x as int,
            right_x as int,
            skip as int,
        ),
{
    let ghost img = bytes@.subrange(start as int, end as int);
    let mut i = start;
    let mut x = x0;
    let mut y = y0;
    while i < end
        invariant
            frame.wf(),
            frame.palette == old(frame).palette,
            frame.dirty == old(frame).dirty,
            start <= i,
            end <= bytes@.len(),
            img == bytes@.subrange(start as int, end as int),
            end + 2 * skip + 2 <= usize::MAX,
            x0 < i32::MAX,
            left_x < i32::MAX,
            x == x0 || x == left_x || x < right_x,
            y0 <= y,
            y0 + 2 * (end - start) + 2 <= i32::MAX,
            y - y0 <= 2 * (i - start),
            walk(old(frame).view_pixels(), img, 0, x0 as int, y0 as int, transp, left_x as int, right_x as int, skip as int)
                == walk(frame.view_pixels(), img, i - start, x as int, y as int, transp, left_x as int, right_x as int, skip as int),
        decreases (if i < end { end - i } else { 0 }),
    {
        let byte = bytes[i];
        proof {
            lemma_nibble_bound(byte);
        }
        frame.put_pixel(x, y, byte >> 4u8, transp);
        x = x + 1;
        if x >= right_x {
            x = left_x;
            y = y + 1;
            i = i + skip;
        }
        frame.put_pixel(x, y, byte & 15u8, transp);
        x = x + 1;
        if x >= right_x {
            x = left_x;
            y = y + 1;
            i = i + skip;
        }
        i = i + 1;
    }
}


/// Copy `n` image bytes starting at `s` into the frame buffer bytes starting at `toff`,
/// the high 4 bits of each image byte becoming the left (even) pixel.
pub open spec fn copy_line(pix: Seq<u8>, img: Seq<u8>, s: int, toff: int, n: int) -> Seq<u8>
    decreases n,
{
    if n <= 0 {
        pix
    } else {
        let t = n - 1;
        let b = img[s + t];
        copy_line(pix, img, s, toff, t).update(2 * (toff + t), hi(b)).update(2 * (toff + t) + 1, lo(b))
    }
}

/// Copy image lines of `line_bytes` bytes, one screen line at a time, starting
/// at image byte `s` and frame buffer byte `toff`, while there are image bytes left
/// (up to `end`). Stops after the line that leaves less than a screen line in the
/// frame buffer. Returns the pixels and the first image byte not consumed.
pub open spec fn fast_rows(pix: Seq<u8>, img: Seq<u8>, s: int, end: int, toff: int, line_bytes: int, w2: int) -> (Seq<u8>, int)
    decreases (if s < end && w2 > 0 { end - s } else { 0 }),
{
    if s >= end || w2 <= 0 {
        (pix, s)
    } else {
        let pix1 = copy_line(pix, img, s, toff, line_bytes);
        if BUFFER_SIZE - toff < 120 {
            (pix1, s)
        } else {
            fast_rows(pix1, img, s + w2, end, toff + 120, line_bytes, w2)
        }
    }
}

/// The line-by-line copy stays within the image and the frame buffer.
pub open spec fn fast_rows_ok(s: int, end: int, toff: int, line_bytes: int, w2: int) -> bool
    decreases (if s < end && w2 > 0 { end - s } else { 0 }),
{
    if s >= end || w2 <= 0 {
        true
    } else {
        &&& s + line_bytes <= end
        &&& 0 <= toff
        &&& toff + line_bytes <= BUFFER_SIZE
        &&& (BUFFER_SIZE - toff < 120 || (s + w2 <= end && fast_rows_ok(s + w2, end, toff + 120, line_bytes, w2)))
    }
}

fn copy_row(frame: &mut FrameBuffer, bytes: &[u8], s: usize, toff: usize, line_bytes: usize)
    requires
        old(frame).wf(),
        s + line_bytes <= bytes@.len(),
        toff + line_bytes <= BUFFER_SIZE,
    ensures
        final(frame).wf(),
        final(frame).palette == old(frame).palette,
        final(frame).dirty == old(frame).dirty,
        final(frame).view_pixels() == copy_line(old(frame).view_pixels(), bytes@, s as int, toff as int, line_bytes as int),
{
    let n = bytes.len();
    let mut t: usize = 0;
    while t < line_bytes
        invariant
            frame.wf(),
            frame.palette == old(frame).palette,
            frame.dirty == old(frame).dirty,
            s + line_bytes <= bytes@.len(),
            toff + line_bytes <= BUFFER_SIZE,
            0 <= t <= line_bytes,
            n == bytes@.len(),
            frame.view_pixels() == copy_line(old(frame).view_pixels(), bytes@, s as int, toff as int, t as int),
        decreases line_bytes - t,
    {
        let b = bytes[s + t];
        let r = swap_nibbles(b);
        proof {
            lemma_set_byte(frame.data@, (toff + t) as int, r);
        }
        frame.data.set(toff + t, r);
        t = t + 1;
    }
}

/// Copy whole image lines into the frame buffer, see [`fast_rows`].
/// Returns the first image byte that was not consumed.
fn copy_rows(frame: &mut FrameBuffer, bytes: &[u8], start: usize, end: usize, toff0: usize, line_bytes: usize, w2: usize) -> (res: usize)
    requires
        old(frame).wf(),
        end <= bytes@.len(),
        w2 > 0,
        fast_rows_ok(start as int, end as int, toff0 as int, line_bytes as int, w2 as int),
        toff0 <= BUFFER_SIZE,
        start <= end,
    ensures
        start <= res <= end,
        final(frame).wf(),
        final(frame).palette == old(frame).palette,
        final(frame).dirty == old(frame).dirty,
        (final(frame).view_pixels(), res as int) == fast_rows(
            old(frame).view_pixels(),
            bytes@,
            start as int,
            end as int,
            toff0 as int,
            line_bytes as int,
            w2 as int,
        ),
{
    let mut s = start;
    let mut toff = toff0;
    while s < end
        invariant
            frame.wf(),
            frame.palette == old(frame).palette,
            frame.dirty == old(frame).dirty,
            end <= bytes@.len(),
            w2 > 0,
            toff <= BUFFER_SIZE,
            start <= s <= end,
            fast_rows_ok(s as int, end as int, toff as int, line_bytes as int, w2 as int),
            fast_rows(old(frame).view_pixels(), bytes@, start as int, end as int, toff0 as int, line_bytes as int, w2 as int)
                == fast_rows(frame.view_pixels(), bytes@, s as int, end as int, toff as int, line_bytes as int, w2 as int),
        decreases end - s,
    {
        copy_row(frame, bytes, s, toff, line_bytes);
        if BUFFER_SIZE - toff < 120 {
            return s;
        }
        toff = toff + 120;
        s = s + w2;
    }
    s
}


/// The first image byte drawn: lines above the screen are cut off.
pub open spec fn fast_start(py: int, width: int) -> int {
    if py < 0 { (-py * width) / 2 } else { 0 }
}

/// The screen line where drawing starts.
pub open spec fn fast_top(py: int) -> int {
    if py < 0 { 0 } else { py }
}

/// The number of image lines left after the top cut.
pub open spec fn fast_height(py: int, width: int, len: int) -> int {
    ((len - fast_start(py, width)) * 2) / width
}

/// The image byte where drawing ends: lines below the screen are cut off.
/// None if the cut leaves nothing sensible to draw.
pub open spec fn fast_end(py: int, width: int, len: int) -> Option<int> {
    let start = fast_start(py, width);
    let y = fast_top(py);
    let h = fast_height(py, width, len);
    if y + h > 160 {
        let prod = (h - (y + h - 160)) * width;
        if prod < 0 || prod / 2 > len - start { None } else { Some(start + prod / 2) }
    } else {
        Some(len)
    }
}

/// The screen column where a line of the image ends (exclusive).
pub open spec fn fast_right(px: int, width: int) -> int {
    if px + width > 240 { 240 + (px + width - 240) % 2 } else { px + width }
}

/// The screen column where the second and the next lines of the image start.
pub open spec fn fast_left(px: int) -> int {
    if px < 0 { -((-px) % 2) } else { px }
}

/// The number of image bytes skipped at the end of each line
/// (the parts outside of the screen on the right and on the left).
pub open spec fn fast_skip(px: int, width: int) -> int {
    (if px + width > 240 { (px + width - 240) / 2 } else { 0 }) + (if px < 0 { (-px) / 2 } else { 0 })
}

/// The image is drawn by copying whole bytes: no transparency, and
/// the image bytes line up with the frame buffer bytes.
pub open spec fn fast_copy_taken(px: int, width: int, transp: u8) -> bool {
    &&& transp > 15
    &&& px >= 0
    &&& px % 2 == 0
    &&& fast_right(px, width) % 2 == 0
}

/// The number of bytes copied per line when copying whole bytes.
pub open spec fn fast_line_bytes(px: int, width: int) -> int {
    if fast_right(px, width) >= fast_left(px) { (fast_right(px, width) - fast_left(px)) / 2 } else { 0 }
}

/// The frame buffer byte where the copy of whole bytes starts.
pub open spec fn fast_toff(px: int, py: int) -> int {
    (fast_top(py) * 240 + px) / 2
}

/// The pixels after drawing a 4-bit image with [`ParsedImage::render`] (no sub-image).
pub open spec fn draw_fast_result(pix: Seq<u8>, img: Seq<u8>, px: int, py: int, width: int, transp: u8) -> Seq<u8> {
    let start = fast_start(py, width);
    if start > img.len() {
        pix
    } else {
        match fast_end(py, width, img.len() as int) {
            None => pix,
            Some(end) => {
                let copied = if fast_copy_taken(px, width, transp) {
                    (fast_rows(pix, img, start, end, fast_toff(px, py), fast_line_bytes(px, width), width / 2).0, end)
                } else {
                    (pix, start)
                };
                walk(
                    copied.0,
                    img.subrange(copied.1, end),
                    0,
                    px,
                    fast_top(py),
                    transp,
                    fast_left(px),
                    fast_right(px, width),
                    fast_skip(px, width),
                )
            },
        }
    }
}

/// True if drawing the image marks the frame buffer as changed:
/// the image wasn't cut away completely.
pub open spec fn draw_fast_draws(py: int, width: int, len: int) -> bool {
    fast_start(py, width) <= len && fast_end(py, width, len) is Some
}

/// The arithmetic of the vertical cut stays within 32-bit integers.
pub open spec fn vertical_ok(py: int, width: int, len: int) -> bool {
    let start = fast_start(py, width);
    let y = fast_top(py);
    let h = fast_height(py, width, len);
    &&& 0 < width <= 65535
    &&& len * 2 + 164 <= i32::MAX
    &&& (py < 0 ==> -py * width <= i32::MAX)
    &&& (start <= len ==> {
        &&& y + h <= i32::MAX
        &&& (y + h > 160 ==> (160 - y) * width >= i32::MIN)
    })
}

/// The arithmetic of the renderer stays within 32-bit integers and all
/// slices it takes are within the image and the frame buffer.
pub open spec fn draw_fast_ok(px: int, py: int, width: int, len: int, transp: u8) -> bool {
    let start = fast_start(py, width);
    &&& vertical_ok(py, width, len)
    &&& i32::MIN < px
    &&& px + width <= i32::MAX
    &&& (draw_fast_draws(py, width, len) && fast_copy_taken(px, width, transp) ==> {
        let end = fast_end(py, width, len)->0;
        &&& (fast_right(px, width) < fast_left(px) ==> start >= end)
        &&& fast_toff(px, py) <= BUFFER_SIZE
        &&& fast_rows_ok(start, end, fast_toff(px, py), fast_line_bytes(px, width), width / 2)
    })
}

/// Cut the lines above and below the screen off the image.
///
/// Returns the first and the end byte of the image to draw and the screen line
/// to start at, or nothing if nothing is left to draw.
fn vertical_cut(py: i32, width: i32, len: usize) -> (res: Option<(usize, usize, i32)>)
    requires
        vertical_ok(py as int, width as int, len as int),
    ensures
        res is Some <==> draw_fast_draws(py as int, width as int, len as int),
        res matches Some((s, e, y)) ==> {
            &&& s == fast_start(py as int, width as int)
            &&& fast_end(py as int, width as int, len as int) == Some(e as int)
            &&& y == fast_top(py as int)
            &&& s <= e <= len
            &&& 0 <= y <= 160
        },
{
    let mut y = py;
    let mut start: usize = 0;
    if y < 0 {
        assert(y > i32::MIN) by (nonlinear_arith)
            requires
                -y * width <= i32::MAX,
                width >= 1,
        ;
        assert(-y * width >= 0) by (nonlinear_arith)
            requires
                y < 0,
                width >= 1,
        ;
        let start_i = ((-y * width) as usize) / 2;
        if start_i > len {
            return None;
        }
        start = start_i;
        y = 0;
    }
    let height = (((len - start) * 2) as i32) / width;
    let bottom_y = y + height;
    let mut end = len;
    if bottom_y > HEIGHT_I32 {
        let new_height = height - (bottom_y - HEIGHT_I32);
        assert(new_height * width >= i32::MIN && new_height * width <= i32::MAX) by (nonlinear_arith)
            requires
                new_height == 160 - y,
                y >= 0,
                (160 - y) * width >= i32::MIN,
                0 < width <= 65535,
        ;
        let prod = new_height * width;
        if prod < 0 {
            assert(y > 160) by (nonlinear_arith)
                requires
                    prod == (160 - y) * width,
                    prod < 0,
                    width > 0,
            ;
            return None;
        }
        assert(y <= 160) by (nonlinear_arith)
            requires
                prod == (160 - y) * width,
                prod >= 0,
                width > 0,
        ;
        let end_i = (prod as usize) / 2;
        if end_i > len - start {
            return None;
        }
        end = start + end_i;
    }
    Some((start, end, y))
}

/// Where the lines of the image start and end on the screen, and how many
/// image bytes are skipped at the end of each line.
fn horizontal_cut(px: i32, width: i32) -> (res: (i32, i32, usize))
    requires
        i32::MIN < px,
        px + width <= i32::MAX,
        0 < width <= 65535,
    ensures
        res.0 == fast_left(px as int),
        res.1 == fast_right(px as int, width as int),
        res.2 == fast_skip(px as int, width as int),
        res.2 <= 0x4001_0000,
{
    let mut skip: usize = 0;
    let mut right_x = px + width;
    if right_x > WIDTH_I32 {
        let skip_px = (right_x - WIDTH_I32) as usize;
        skip = skip_px / 2;
        right_x = WIDTH_I32 + (skip_px % 2) as i32;
    }
    let mut left_x = px;
    if left_x < 0 {
        let skip_px = (-left_x) as usize;
        skip = skip + skip_px / 2;
        left_x = -((skip_px % 2) as i32);
    }
    (left_x, right_x, skip)
}

/// A 4-bit image ready to be drawn.
pub struct ParsedImage<'a> {
    /// The packed pixels, 2 pixels per byte, the left pixel in the high 4 bits.
    pub bytes: &'a [u8],
    /// The image width in pixels.
    pub width: u32,
    /// The color that is not drawn.
    pub transp: u8,
    /// The part of the image to draw, if not the whole image.
    pub sub: Option<crate::frame_buffer::Rect>,
}

impl<'a> ParsedImage<'a> {
    /// Faster implementation of drawing of a 4 BPP image.
    ///
    /// Iterates over image bytes directly.
    fn draw_fast(&self, point_x: i32, point_y: i32, frame: &mut FrameBuffer)
        requires
            old(frame).wf(),
            draw_fast_ok(point_x as int, point_y as int, self.width as int, self.bytes@.len() as int, self.transp),
        ensures
            final(frame).wf(),
            final(frame).palette == old(frame).palette,
            final(frame).dirty == (old(frame).dirty || draw_fast_draws(point_y as int, self.width as int, self.bytes@.len() as int)),
            final(frame).view_pixels() == draw_fast_result(
                old(frame).view_pixels(),
                self.bytes@,
                point_x as int,
                point_y as int,
                self.width as int,
                self.transp,
            ),
    {
        let width = self.width as i32;
        let len = self.bytes.len();
        let (start, end, py) = match vertical_cut(point_y, width, len) {
            None => return,
            Some(cut) => cut,
        };
        let (left_x, right_x, skip) = horizontal_cut(point_x, width);

        // A faster implementation for when no transparency is used and
        // the image bytes are aligned with the frame buffer bytes.
        let mut s = start;
        if self.transp > 15 && point_x >= 0 && point_x % 2 == 0 && right_x % 2 == 0 {
            let line_bytes = if right_x >= left_x { ((right_x - left_x) / 2) as usize } else { 0 };
            let target_offset = (py as usize * 240 + point_x as usize) / 2;
            // The copy covers every line on the screen: nothing is left to draw.
            let _ = copy_rows(frame, self.bytes, start, end, target_offset, line_bytes, (width / 2) as usize);
            s = end;
            frame.dirty = true;
        }

        draw_walk(frame, self.bytes, s, end, point_x, py, self.transp, left_x, right_x, skip);
        frame.dirty = true;
    }
}

/// The value fits into a signed 32-bit integer.
pub open spec fn fits_i32(v: int) -> bool {
    i32::MIN <= v <= i32::MAX
}

/// Where a part of an image lands on the screen: the screen point of its top-left
/// pixel, and the image columns `[left, right)` and lines `[top, bottom)` drawn.
pub struct SubPlan {
    pub fx: int,
    pub fy: int,
    pub left: int,
    pub right: int,
    pub top: int,
    pub bottom: int,
}

/// The part of an image that the sub-image renderer draws, after it cut off what
/// is outside of the image and of the screen. None if it draws nothing.
///
/// As the renderer does, the right cut compares the screen line (not the column)
/// plus the width with the screen width.
pub open spec fn sub_plan(px: int, py: int, sub: Rect, w: int, len: int) -> Option<SubPlan> {
    let top1 = if py < 0 { sub.y - py } else { sub.y as int };
    let height1 = if py < 0 { (sub.height as i32) + py } else { (sub.height as i32) as int };
    let fy = if py < 0 { 0 } else { py };
    let max_height = (len * 2) / w - top1;
    let height2 = if height1 > max_height { max_height } else { height1 };
    let oob_bottom = fy + height2 - 160;
    let height3 = if oob_bottom > 0 { height2 - oob_bottom } else { height2 };
    let bottom = top1 + height3;
    let left1 = if px < 0 { sub.x - px } else { sub.x as int };
    let width1 = if px < 0 { (sub.width as i32) + px } else { (sub.width as i32) as int };
    let fx = if px < 0 { 0 } else { px };
    let max_width = w - left1;
    let width2 = if width1 > max_width { max_width } else { width1 };
    let oob_right = fy + width2 - 240;
    let width3 = if oob_right > 0 { width2 - oob_right } else { width2 };
    let right = left1 + width3;
    if oob_bottom > 0 && height3 <= 0 {
        None
    } else if bottom < 0 {
        None
    } else if oob_right > 0 && width3 <= 0 {
        None
    } else if right < 0 {
        None
    } else {
        Some(SubPlan { fx, fy, left: left1, right, top: top1, bottom })
    }
}

/// The arithmetic of the sub-image cut stays within 32-bit integers.
pub open spec fn sub_cut_ok(px: int, py: int, sub: Rect, w: int, len: int) -> bool {
    let top1 = if py < 0 { sub.y - py } else { sub.y as int };
    let height1 = if py < 0 { (sub.height as i32) + py } else { (sub.height as i32) as int };
    let fy = if py < 0 { 0 } else { py };
    let max_height = (len * 2) / w - top1;
    let height2 = if height1 > max_height { max_height } else { height1 };
    let oob_bottom = fy + height2 - 160;
    let height3 = if oob_bottom > 0 { height2 - oob_bottom } else { height2 };
    let left1 = if px < 0 { sub.x - px } else { sub.x as int };
    let width1 = if px < 0 { (sub.width as i32) + px } else { (sub.width as i32) as int };
    let max_width = w - left1;
    let width2 = if width1 > max_width { max_width } else { width1 };
    let oob_right = fy + width2 - 240;
    let width3 = if oob_right > 0 { width2 - oob_right } else { width2 };
    &&& 0 < w <= i32::MAX
    &&& len * 2 <= i32::MAX
    &&& fits_i32(top1)
    &&& fits_i32(height1)
    &&& fits_i32(max_height)
    &&& fits_i32(fy + height2)
    &&& fits_i32(oob_bottom)
    &&& fits_i32(height3)
    &&& fits_i32(top1 + height3)
    &&& fits_i32(left1)
    &&& fits_i32(width1)
    &&& fits_i32(max_width)
    &&& fits_i32(fy + width2)
    &&& fits_i32(oob_right)
    &&& fits_i32(width3)
    &&& fits_i32(left1 + width3)
}

/// Every pixel the sub-image renderer reads is in the image, and its offsets and
/// screen coordinates fit into 32-bit integers.
pub open spec fn sub_read_ok(plan: SubPlan, w: int, len: int) -> bool {
    plan.top < plan.bottom && plan.left < plan.right ==> {
        &&& 0 <= plan.top * w + plan.left
        &&& (plan.bottom - 1) * w + plan.right - 1 < 2 * len
        &&& fits_i32(plan.top * w)
        &&& fits_i32((plan.bottom - 1) * w)
        &&& plan.fx + (plan.right - plan.left) <= i32::MAX
        &&& plan.fy + (plan.bottom - plan.top) <= i32::MAX
    }
}

/// The color of the pixel at the given offset of a packed 4-bit image:
/// the high 4 bits of a byte hold the left pixel.
pub open spec fn image_pixel(img: Seq<u8>, offset: int) -> u8 {
    if offset % 2 == 0 { hi(img[offset / 2]) } else { lo(img[offset / 2]) }
}

/// The color that the sub-image renderer gives to the screen pixel `i`, drawing the
/// image lines `[plan.top, bottom)`, or the old color if it leaves that pixel.
pub open spec fn sub_pixel(old: u8, i: int, img: Seq<u8>, w: int, transp: u8, plan: SubPlan, bottom: int) -> u8 {
    let ix = col(i) - plan.fx + plan.left;
    let iy = row(i) - plan.fy + plan.top;
    if plan.left <= ix < plan.right && plan.top <= iy < bottom && image_pixel(img, iy * w + ix) != transp {
        image_pixel(img, iy * w + ix)
    } else {
        old
    }
}

/// The pixels after drawing a part of an image, see [`sub_plan`].
pub open spec fn draw_sub_result(pix: Seq<u8>, img: Seq<u8>, px: int, py: int, sub: Rect, w: int, transp: u8) -> Seq<u8> {
    match sub_plan(px, py, sub, w, img.len() as int) {
        None => pix,
        Some(plan) => Seq::new(pix.len(), |i: int| sub_pixel(pix[i], i, img, w, transp, plan, plan.bottom)),
    }
}

/// Compute the part of the image to draw, see [`sub_plan`].
fn sub_cut(px: i32, py: i32, sub: Rect, w: u32, len: usize) -> (res: Option<(i32, i32, i32, i32, i32, i32)>)
    requires
        sub_cut_ok(px as int, py as int, sub, w as int, len as int),
    ensures
        match res {
            None => sub_plan(px as int, py as int, sub, w as int, len as int) is None,
            Some((fx, fy, left, right, top, bottom)) => sub_plan(px as int, py as int, sub, w as int, len as int)
                == Some(SubPlan { fx: fx as int, fy: fy as int, left: left as int, right: right as int, top: top as int, bottom: bottom as int }),
        },
{
    let mut p_x = px;
    let mut p_y = py;
    let mut top = sub.y;
    let mut left = sub.x;
    let mut width = sub.width as i32;
    let mut height = sub.height as i32;

    // Adjust top boundaries.
    if p_y < 0 {
        top = top - p_y;
        height = height + p_y;
        p_y = 0;
    }

    // Adjust bottom boundaries.
    let img_height = len * 2 / (w as usize);
    let max_height = img_height as i32 - top;
    if height > max_height {
        height = max_height;
    }
    let oob_bottom = (p_y + height) - HEIGHT_I32;
    if oob_bottom > 0 {
        height = height - oob_bottom;
        if height <= 0 {
            return None;
        }
    }
    let bottom = top + height;
    if bottom < 0 {
        return None;
    }

    // Adjust left boundaries.
    if p_x < 0 {
        left = left - p_x;
        width = width + p_x;
        p_x = 0;
    }

    // Adjust right boundaries.
    let max_width = w as i32 - left;
    if width > max_width {
        width = max_width;
    }
    let oob_right = (p_y + width) - WIDTH_I32;
    if oob_right > 0 {
        width = width - oob_right;
        if width <= 0 {
            return None;
        }
    }
    let right = left + width;
    if right < 0 {
        return None;
    }
    Some((p_x, p_y, left, right, top, bottom))
}

/// A pixel index is the index of a point on the screen exactly when its column and
/// line are those of the point.
proof fn lemma_screen_point(i: int, x: int, y: int)
    requires
        0 <= i < N_PIXELS,
    ensures
        (on_screen(x, y) && i == idx(x, y)) <==> (col(i) == x && row(i) == y),
{
    if on_screen(x, y) {
        lemma_idx(x, y);
    }
}

/// The colors after drawing the image lines before `iy` and, of line `iy`,
/// the columns before `ix`.
pub open spec fn sub_pixel_part(old: u8, i: int, img: Seq<u8>, w: int, transp: u8, plan: SubPlan, iy: int, ix: int) -> u8 {
    let jx = col(i) - plan.fx + plan.left;
    let jy = row(i) - plan.fy + plan.top;
    if jy == iy && plan.left <= jx < ix && image_pixel(img, jy * w + jx) != transp {
        image_pixel(img, jy * w + jx)
    } else {
        sub_pixel(old, i, img, w, transp, plan, iy)
    }
}

impl<'a> ParsedImage<'a> {
    /// Draw the image columns `[left, right)` of the lines `[top, bottom)` with the
    /// top-left one at the screen point `(fx, fy)`.
    fn draw_sub_rows(&self, frame: &mut FrameBuffer, fx: i32, fy: i32, left: i32, right: i32, top: i32, bottom: i32)
        requires
            old(frame).wf(),
            0 < self.width <= i32::MAX,
            self.bytes@.len() * 2 <= i32::MAX,
            0 <= fx,
            0 <= fy,
            sub_read_ok(
                SubPlan { fx: fx as int, fy: fy as int, left: left as int, right: right as int, top: top as int, bottom: bottom as int },
                self.width as int,
                self.bytes@.len() as int,
            ),
        ensures
            final(frame).wf(),
            final(frame).palette == old(frame).palette,
            final(frame).dirty == old(frame).dirty,
            forall|i: int| 0 <= i < N_PIXELS ==> #[trigger] final(frame).pixel(i) == sub_pixel(
                old(frame).pixel(i),
                i,
                self.bytes@,
                self.width as int,
                self.transp,
                SubPlan { fx: fx as int, fy: fy as int, left: left as int, right: right as int, top: top as int, bottom: bottom as int },
                bottom as int,
            ),
    {
        let ghost plan = SubPlan { fx: fx as int, fy: fy as int, left: left as int, right: right as int, top: top as int, bottom: bottom as int };
        let ghost img = self.bytes@;
        let ghost w = self.width as int;
        let wi = self.width as i32;
        if top >= bottom || left >= right {
            assert forall|i: int| 0 <= i < N_PIXELS implies #[trigger] frame.pixel(i) == sub_pixel(
                old(frame).pixel(i), i, img, w, self.transp, plan, bottom as int) by {}
            return;
        }
        let mut iy = top;
        while iy < bottom
            invariant
                frame.wf(),
                frame.palette == old(frame).palette,
                frame.dirty == old(frame).dirty,
                top <= iy <= bottom,
                top < bottom,
                left < right,
                img == self.bytes@,
                w == self.width,
                wi == w,
                0 < w <= i32::MAX,
                img.len() * 2 <= i32::MAX,
                0 <= fx,
                0 <= fy,
                plan == (SubPlan { fx: fx as int, fy: fy as int, left: left as int, right: right as int, top: top as int, bottom: bottom as int }),
                sub_read_ok(plan, w, img.len() as int),
                forall|i: int| 0 <= i < N_PIXELS ==> #[trigger] frame.pixel(i) == sub_pixel(
                    old(frame).pixel(i), i, img, w, self.transp, plan, iy as int),
            decreases bottom - iy,
        {
            assert(top * w <= iy * w <= (bottom - 1) * w) by (nonlinear_arith)
                requires
                    top <= iy < bottom,
                    w > 0,
            ;
            let row_off = iy * wi;
            let mut ix = left;
            while ix < right
                invariant
                    frame.wf(),
                    frame.palette == old(frame).palette,
                    frame.dirty == old(frame).dirty,
                    top <= iy < bottom,
                    left <= ix <= right,
                    img == self.bytes@,
                    w == self.width,
                    0 < w <= i32::MAX,
                    img.len() * 2 <= i32::MAX,
                    0 <= fx,
                    0 <= fy,
                    row_off == iy * w,
                    top * w <= iy * w <= (bottom - 1) * w,
                    plan == (SubPlan { fx: fx as int, fy: fy as int, left: left as int, right: right as int, top: top as int, bottom: bottom as int }),
                    sub_read_ok(plan, w, img.len() as int),
                    forall|i: int| 0 <= i < N_PIXELS ==> #[trigger] frame.pixel(i) == sub_pixel_part(
                        old(frame).pixel(i), i, img, w, self.transp, plan, iy as int, ix as int),
                decreases right - ix,
            {
                let offset = (row_off + ix) as usize;
                let byte = self.bytes[offset / 2];
                let luma = if offset % 2 == 0 { byte >> 4u8 } else { byte & 15u8 };
                proof {
                    lemma_nibble_bound(byte);
                }
                let x = fx + (ix - left);
                let y = fy + (iy - top);
                let ghost before = *frame;
                if luma != self.transp {
                    frame.set_pixel(x, y, luma);
                }
                assert forall|i: int| 0 <= i < N_PIXELS implies #[trigger] frame.pixel(i) == sub_pixel_part(
                    old(frame).pixel(i), i, img, w, self.transp, plan, iy as int, ix + 1) by {
                    lemma_screen_point(i, x as int, y as int);
                    assert(before.pixel(i) == sub_pixel_part(old(frame).pixel(i), i, img, w, self.transp, plan, iy as int, ix as int));
                }
                ix = ix + 1;
            }
            assert forall|i: int| 0 <= i < N_PIXELS implies #[trigger] frame.pixel(i) == sub_pixel(
                old(frame).pixel(i), i, img, w, self.transp, plan, iy + 1) by {
                assert(frame.pixel(i) == sub_pixel_part(old(frame).pixel(i), i, img, w, self.transp, plan, iy as int, right as int));
            }
            iy = iy + 1;
        }
    }
}

/// Drawing a part of an image stays within 32-bit integers and within the image.
pub open spec fn draw_sub_ok(px: int, py: int, sub: Rect, w: int, len: int) -> bool {
    &&& sub_cut_ok(px, py, sub, w, len)
    &&& (sub_plan(px, py, sub, w, len) matches Some(plan) ==> sub_read_ok(plan, w, len))
}

/// Drawing the image (or its part) at the given point neither overflows
/// nor reads or writes out of bounds.
pub open spec fn render_ok(bytes: Seq<u8>, width: int, transp: u8, sub: Option<Rect>, px: int, py: int) -> bool {
    match sub {
        Some(sub) => draw_sub_ok(px, py, sub, width, bytes.len() as int),
        None => draw_fast_ok(px, py, width, bytes.len() as int, transp),
    }
}

/// The pixels after drawing the image (or its part) at the given point.
pub open spec fn render_result(pix: Seq<u8>, bytes: Seq<u8>, width: int, transp: u8, sub: Option<Rect>, px: int, py: int) -> Seq<u8> {
    match sub {
        Some(sub) => draw_sub_result(pix, bytes, px, py, sub, width, transp),
        None => draw_fast_result(pix, bytes, px, py, width, transp),
    }
}

/// The whole image is drawn, and where it reaches beyond the screen, the cuts fall
/// between two pixels (see [`image_cols_ok`] and [`image_cut_ok`]).
pub open spec fn image_inside(bytes: Seq<u8>, width: int, sub: Option<Rect>, px: int, py: int) -> bool {
    &&& sub is None
    &&& image_cols_ok(width, px)
    &&& image_cut_ok(bytes.len() as int, width, py)
}

/// True if drawing the image (or its part) marks the frame buffer as changed.
pub open spec fn render_draws(bytes: Seq<u8>, width: int, sub: Option<Rect>, px: int, py: int) -> bool {
    match sub {
        Some(sub) => sub_plan(px, py, sub, width, bytes.len() as int) is Some,
        None => draw_fast_draws(py, width, bytes.len() as int),
    }
}

impl<'a> ParsedImage<'a> {
    /// Draw the image, or the part of it given by `sub`, with its top-left corner
    /// at the given point. Pixels of the transparent color are not drawn.
    pub fn render(&self, point_x: i32, point_y: i32, frame: &mut FrameBuffer)
        requires
            old(frame).wf(),
            render_ok(self.bytes@, self.width as int, self.transp, self.sub, point_x as int, point_y as int),
        ensures
            final(frame).wf(),
            final(frame).palette == old(frame).palette,
            final(frame).dirty == (old(frame).dirty
                || render_draws(self.bytes@, self.width as int, self.sub, point_x as int, point_y as int)),
            final(frame).view_pixels() == render_result(
                old(frame).view_pixels(),
                self.bytes@,
                self.width as int,
                self.transp,
                self.sub,
                point_x as int,
                point_y as int,
            ),
            image_inside(self.bytes@, self.width as int, self.sub, point_x as int, point_y as int)
                ==> final(frame).view_pixels() == placed(
                old(frame).view_pixels(),
                self.bytes@,
                point_x as int,
                point_y as int,
                self.width as int,
                self.transp,
                0,
                2 * self.bytes@.len() as int,
            ),
    {
        proof {
            if image_inside(self.bytes@, self.width as int, self.sub, point_x as int, point_y as int) {
                law_image_drawn_in_place(
                    old(frame).view_pixels(),
                    self.bytes@,
                    self.width as int,
                    self.transp,
                    point_x as int,
                    point_y as int,
                );
            }
        }
        match self.sub {
            Some(sub) => self.draw_sub_fast(point_x, point_y, sub, frame),
            None => self.draw_fast(point_x, point_y, frame),
        }
    }

    /// Draw the part `sub` of the image with its top-left corner at the given point.
    fn draw_sub_fast(&self, point_x: i32, point_y: i32, sub: Rect, frame: &mut FrameBuffer)
        requires
            old(frame).wf(),
            draw_sub_ok(point_x as int, point_y as int, sub, self.width as int, self.bytes@.len() as int),
        ensures
            final(frame).wf(),
            final(frame).palette == old(frame).palette,
            final(frame).dirty == (old(frame).dirty
                || sub_plan(point_x as int, point_y as int, sub, self.width as int, self.bytes@.len() as int) is Some),
            final(frame).view_pixels() == draw_sub_result(
                old(frame).view_pixels(),
                self.bytes@,
                point_x as int,
                point_y as int,
                sub,
                self.width as int,
                self.transp,
            ),
    {
        let (fx, fy, left, right, top, bottom) = match sub_cut(point_x, point_y, sub, self.width, self.bytes.len()) {
            None => return,
            Some(plan) => plan,
        };
        let ghost plan = SubPlan { fx: fx as int, fy: fy as int, left: left as int, right: right as int, top: top as int, bottom: bottom as int };
        let ghost before = *frame;
        self.draw_sub_rows(frame, fx, fy, left, right, top, bottom);
        proof {
            let expected = Seq::new(
                before.view_pixels().len(),
                |i: int| sub_pixel(before.view_pixels()[i], i, self.bytes@, self.width as int, self.transp, plan, plan.bottom),
            );
            assert forall|i: int| 0 <= i < N_PIXELS implies #[trigger] frame.view_pixels()[i] == expected[i] by {
                assert(frame.view_pixels()[i] == frame.pixel(i));
                assert(before.view_pixels()[i] == before.pixel(i));
            }
            assert(frame.view_pixels() =~= expected);
        }
        frame.dirty = true;
    }
}

/// The screen width as a signed number.
pub const WIDTH_I32: i32 = 240;
/// The screen height as a signed number.
pub const HEIGHT_I32: i32 = 160;

/// Check [`fast_rows_ok`]: walk the lines that the copy would take.
fn rows_ok(s0: i64, end: i64, toff0: i64, lb: i64, w2: i64) -> (res: bool)
    requires
        0 <= s0,
        0 <= end <= 0x1_0000_0000,
        -0x1_0000_0000 <= toff0 <= 0x1_0000_0000,
        0 <= lb <= 0x1_0000_0000,
        0 <= w2 <= 0x1_0000_0000,
    ensures
        res == fast_rows_ok(s0 as int, end as int, toff0 as int, lb as int, w2 as int),
{
    let mut s = s0;
    let mut toff = toff0;
    loop
        invariant
            0 <= s,
            0 <= end <= 0x1_0000_0000,
            -0x1_0000_0000 <= toff <= 0x1_0000_0000,
            0 <= lb <= 0x1_0000_0000,
            0 <= w2 <= 0x1_0000_0000,
            s0 < end ==> s <= end,
            fast_rows_ok(s0 as int, end as int, toff0 as int, lb as int, w2 as int)
                == fast_rows_ok(s as int, end as int, toff as int, lb as int, w2 as int),
        decreases end - s,
    {
        if s >= end || w2 <= 0 {
            return true;
        }
        if !(s + lb <= end && 0 <= toff && toff + lb <= BUFFER_SIZE as i64) {
            return false;
        }
        if (BUFFER_SIZE as i64) - toff < 120 {
            return true;
        }
        if !(s + w2 <= end) {
            return false;
        }
        s = s + w2;
        toff = toff + 120;
    }
}

/// The part of an image that [`sub_plan`] gives, as numbers.
fn sub_plan_exec(px: i128, py: i128, sub: Rect, w: i128, len: i128) -> (res: Option<(i128, i128, i128, i128, i128, i128)>)
    requires
        i32::MIN <= px <= i32::MAX,
        i32::MIN <= py <= i32::MAX,
        0 < w <= i32::MAX,
        0 <= len * 2 <= i32::MAX,
    ensures
        match res {
            None => sub_plan(px as int, py as int, sub, w as int, len as int) is None,
            Some((fx, fy, left, right, top, bottom)) => sub_plan(px as int, py as int, sub, w as int, len as int)
                == Some(SubPlan { fx: fx as int, fy: fy as int, left: left as int, right: right as int, top: top as int, bottom: bottom as int })
                && -0x2_0000_0000 <= top <= 0x2_0000_0000 && -0x2_0000_0000 <= bottom <= 0x2_0000_0000
                && -0x2_0000_0000 <= left <= 0x2_0000_0000 && -0x2_0000_0000 <= right <= 0x2_0000_0000
                && 0 <= fx <= i32::MAX && 0 <= fy <= i32::MAX,
        },
{
    let sy = sub.y as i128;
    let sx = sub.x as i128;
    let sh = (sub.height as i32) as i128;
    let sw = (sub.width as i32) as i128;
    let top1 = if py < 0 { sy - py } else { sy };
    let height1 = if py < 0 { sh + py } else { sh };
    let fy = if py < 0 { 0 } else { py };
    let max_height = (len * 2) / w - top1;
    let height2 = if height1 > max_height { max_height } else { height1 };
    let oob_bottom = fy + height2 - 160;
    let height3 = if oob_bottom > 0 { height2 - oob_bottom } else { height2 };
    let bottom = top1 + height3;
    let left1 = if px < 0 { sx - px } else { sx };
    let width1 = if px < 0 { sw + px } else { sw };
    let fx = if px < 0 { 0 } else { px };
    let max_width = w - left1;
    let width2 = if width1 > max_width { max_width } else { width1 };
    let oob_right = fy + width2 - 240;
    let width3 = if oob_right > 0 { width2 - oob_right } else { width2 };
    let right = left1 + width3;
    if oob_bottom > 0 && height3 <= 0 {
        None
    } else if bottom < 0 {
        None
    } else if oob_right > 0 && width3 <= 0 {
        None
    } else if right < 0 {
        None
    } else {
        Some((fx, fy, left1, right, top1, bottom))
    }
}

/// The value fits into a signed 32-bit integer.
fn fits(v: i128) -> (res: bool)
    ensures
        res == fits_i32(v as int),
{
    i32::MIN as i128 <= v && v <= i32::MAX as i128
}

/// A product of two numbers of at most 34 bits stays well within 128 bits.
proof fn lemma_small_product(a: int, b: int)
    requires
        -0x4_0000_0000 <= a <= 0x4_0000_0000,
        -0x4_0000_0000 <= b <= 0x4_0000_0000,
    ensures
        -0x10_0000_0000_0000_0000 <= a * b <= 0x10_0000_0000_0000_0000,
{
    assert(-0x10_0000_0000_0000_0000 <= a * b <= 0x10_0000_0000_0000_0000) by (nonlinear_arith)
        requires
            -0x4_0000_0000 <= a <= 0x4_0000_0000,
            -0x4_0000_0000 <= b <= 0x4_0000_0000,
    ;
}

/// Check [`sub_cut_ok`].
fn sub_cut_allowed(px: i32, py: i32, sub: Rect, w: u32, len: usize) -> (res: bool)
    ensures
        res == sub_cut_ok(px as int, py as int, sub, w as int, len as int),
{
    let w = w as i128;
    let len = len as i128;
    if !(0 < w && w <= i32::MAX as i128 && len * 2 <= i32::MAX as i128) {
        return false;
    }
    let px = px as i128;
    let py = py as i128;
    let sy = sub.y as i128;
    let sx = sub.x as i128;
    let sh = (sub.height as i32) as i128;
    let sw = (sub.width as i32) as i128;
    let top1 = if py < 0 { sy - py } else { sy };
    let height1 = if py < 0 { sh + py } else { sh };
    let fy = if py < 0 { 0 } else { py };
    let max_height = (len * 2) / w - top1;
    let height2 = if height1 > max_height { max_height } else { height1 };
    let oob_bottom = fy + height2 - 160;
    let height3 = if oob_bottom > 0 { height2 - oob_bottom } else { height2 };
    let left1 = if px < 0 { sx - px } else { sx };
    let width1 = if px < 0 { sw + px } else { sw };
    let max_width = w - left1;
    let width2 = if width1 > max_width { max_width } else { width1 };
    let oob_right = fy + width2 - 240;
    let width3 = if oob_right > 0 { width2 - oob_right } else { width2 };
    fits(top1) && fits(height1) && fits(max_height) && fits(fy + height2) && fits(oob_bottom) && fits(height3)
        && fits(top1 + height3) && fits(left1) && fits(width1) && fits(max_width) && fits(fy + width2) && fits(
        oob_right,
    ) && fits(width3) && fits(left1 + width3)
}

/// Check [`sub_read_ok`].
fn sub_read_allowed(fx: i128, fy: i128, left: i128, right: i128, top: i128, bottom: i128, w: i128, len: i128) -> (res: bool)
    requires
        -0x2_0000_0000 <= top <= 0x2_0000_0000,
        -0x2_0000_0000 <= bottom <= 0x2_0000_0000,
        -0x2_0000_0000 <= left <= 0x2_0000_0000,
        -0x2_0000_0000 <= right <= 0x2_0000_0000,
        0 <= fx <= i32::MAX,
        0 <= fy <= i32::MAX,
        0 < w <= i32::MAX,
        0 <= len <= i32::MAX,
    ensures
        res == sub_read_ok(
            SubPlan { fx: fx as int, fy: fy as int, left: left as int, right: right as int, top: top as int, bottom: bottom as int },
            w as int,
            len as int,
        ),
{
    if !(top < bottom && left < right) {
        return true;
    }
    proof {
        lemma_small_product(top as int, w as int);
        lemma_small_product((bottom - 1) as int, w as int);
    }
    0 <= top * w + left && (bottom - 1) * w + right - 1 < 2 * len && fits(top * w) && fits((bottom - 1) * w)
        && fx + (right - left) <= i32::MAX as i128 && fy + (bottom - top) <= i32::MAX as i128
}

/// Check [`draw_sub_ok`].
fn sub_allowed(px: i32, py: i32, sub: Rect, w: u32, len: usize) -> (res: bool)
    ensures
        res == draw_sub_ok(px as int, py as int, sub, w as int, len as int),
{
    if !sub_cut_allowed(px, py, sub, w, len) {
        return false;
    }
    match sub_plan_exec(px as i128, py as i128, sub, w as i128, len as i128) {
        None => true,
        Some((fx, fy, left, right, top, bottom)) => sub_read_allowed(fx, fy, left, right, top, bottom, w as i128, len as i128),
    }
}

/// Check [`draw_fast_ok`].
fn fast_allowed(px: i32, py: i32, width: u32, len: usize, transp: u8) -> (res: bool)
    ensures
        res == draw_fast_ok(px as int, py as int, width as int, len as int, transp),
{
    let w = width as i128;
    let len = len as i128;
    let x = px as i128;
    let y = py as i128;
    let imax = i32::MAX as i128;
    let imin = i32::MIN as i128;
    if !(0 < w && w <= 65535 && len * 2 + 164 <= imax) {
        return false;
    }
    proof {
        lemma_small_product(-y, w as int);
    }
    if y < 0 && !(-y * w <= imax) {
        return false;
    }
    let start = if y < 0 { (-y * w) / 2 } else { 0 };
    let top = if y < 0 { 0 } else { y };
    assert(start == fast_start(py as int, width as int));
    if start <= len {
        let h = ((len - start) * 2) / w;
        assert(h == fast_height(py as int, width as int, len as int));
        if !(top + h <= imax) {
            return false;
        }
        proof {
            lemma_small_product(160 - top, w as int);
        }
        if top + h > 160 && !((160 - top) * w >= imin) {
            return false;
        }
    }
    if !(imin < x && x + w <= imax) {
        return false;
    }
    if !(start <= len) {
        return true;
    }
    let h = ((len - start) * 2) / w;
    let end = if top + h > 160 {
        let prod = (h - (top + h - 160)) * w;
        if prod < 0 || prod / 2 > len - start {
            return true;
        }
        start + prod / 2
    } else {
        len
    };
    let right = if x + w > 240 { 240 + (x + w - 240) % 2 } else { x + w };
    let left = if x < 0 { -((-x) % 2) } else { x };
    assert(right == fast_right(px as int, width as int));
    assert(left == fast_left(px as int));
    let copy_taken = transp > 15 && x >= 0 && x % 2 == 0 && right % 2 == 0;
    if !copy_taken {
        return true;
    }
    if right < left && !(start >= end) {
        return false;
    }
    let toff = (top * 240 + x) / 2;
    if toff > BUFFER_SIZE as i128 {
        return false;
    }
    let lb = if right >= left { (right - left) / 2 } else { 0 };
    rows_ok(start as i64, end as i64, toff as i64, lb as i64, (w / 2) as i64)
}

impl<'a> ParsedImage<'a> {
    /// True if the image (or its part) can be drawn at the given point
    /// without overflows and without reads or writes out of bounds, see [`render_ok`].
    pub fn render_allowed(&self, point_x: i32, point_y: i32) -> (res: bool)
        ensures
            res == render_ok(self.bytes@, self.width as int, self.transp, self.sub, point_x as int, point_y as int),
    {
        match self.sub {
            Some(sub) => sub_allowed(point_x, point_y, sub, self.width, self.bytes.len()),
            None => fast_allowed(point_x, point_y, self.width, self.bytes.len(), self.transp),
        }
    }
}

} // verus!
