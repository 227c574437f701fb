use vstd::prelude::*;
use crate::color::{Rgb16, default_palette, default_palette_seq, spec_into_rgb};

verus! {

/// Screen width in pixels.
pub const WIDTH: usize = 240;
/// Screen height in pixels.
pub const HEIGHT: usize = 160;
/// Bytes needed to store all pixels (4 bits per pixel, 2 pixels per byte).
pub const BUFFER_SIZE: usize = 19200;
/// Number of pixels on the screen.
pub const N_PIXELS: usize = 38400;

/// The low 4 bits of a byte: the pixel with the even index.
pub open spec fn lo(b: u8) -> u8 {
    b & 15u8
}

/// The high 4 bits of a byte: the pixel with the odd index.
pub open spec fn hi(b: u8) -> u8 {
    b >> 4u8
}

/// The color (palette index) of the pixel with the given index in packed pixel data.
pub open spec fn nibble(data: Seq<u8>, i: int) -> u8 {
    if i % 2 == 0 {
        lo(data[i / 2])
    } else {
        hi(data[i / 2])
    }
}

/// The column of the pixel with the given index.
pub open spec fn col(i: int) -> int {
    i % (WIDTH as int)
}

/// The row of the pixel with the given index.
pub open spec fn row(i: int) -> int {
    i / (WIDTH as int)
}

/// The index of the pixel at the given coordinates.
pub open spec fn idx(x: int, y: int) -> int {
    y * (WIDTH as int) + x
}

/// True if the pixel with the given index is in the half-open rectangle
/// `[left, right) x [top, bottom)`.
pub open spec fn in_area(i: int, left: int, right: int, top: int, bottom: int) -> bool {
    left <= col(i) < right && top <= row(i) < bottom
}

/// True if the point is on the screen.
pub open spec fn on_screen(x: int, y: int) -> bool {
    0 <= x < WIDTH && 0 <= y < HEIGHT
}

pub proof fn lemma_set_lo(b: u8, c: u8)
    requires
        c < 16,
    ensures
        lo(c | (b & 0xf0u8)) == c,
        hi(c | (b & 0xf0u8)) == hi(b),
{
    assert(((c | (b & 0xf0u8)) & 15u8) == c && ((c | (b & 0xf0u8)) >> 4u8) == (b >> 4u8)) by (bit_vector)
        requires
            c < 16,
    ;
}

pub proof fn lemma_set_hi(b: u8, c: u8)
    requires
        c < 16,
    ensures
        lo(((c << 4u8) | (b & 0x0fu8)) as u8) == lo(b),
        hi(((c << 4u8) | (b & 0x0fu8)) as u8) == c,
{
    assert(((((c << 4u8) | (b & 0x0fu8)) as u8) & 15u8) == (b & 15u8) && ((((c << 4u8) | (b
        & 0x0fu8)) as u8) >> 4u8) == c) by (bit_vector)
        requires
            c < 16,
    ;
}

pub proof fn lemma_double(c: u8)
    requires
        c < 16,
    ensures
        lo((c | (c << 4u8)) as u8) == c,
        hi((c | (c << 4u8)) as u8) == c,
{
    assert(((((c | (c << 4u8)) as u8) & 15u8) == c) && ((((c | (c << 4u8)) as u8) >> 4u8) == c)) by (bit_vector)
        requires
            c < 16,
    ;
}

pub proof fn lemma_nibble_bound(b: u8)
    ensures
        lo(b) < 16,
        hi(b) < 16,
{
    assert((b & 15u8) < 16 && (b >> 4u8) < 16) by (bit_vector);
}

/// Pixel index facts: both pixels of a byte are in the same row,
/// in the neighbouring columns.
pub proof fn lemma_pixel_of_byte(i: int)
    requires
        0 <= i,
    ensures
        row(i) == (i / 2) / 120,
        col(i) == 2 * ((i / 2) % 120) + i % 2,
{
    assert(i / 240 == (i / 2) / 120) by (nonlinear_arith)
        requires
            0 <= i,
    ;
    assert(i % 240 == 2 * ((i / 2) % 120) + i % 2) by (nonlinear_arith)
        requires
            0 <= i,
    ;
}

pub proof fn lemma_idx(x: int, y: int)
    requires
        0 <= x < WIDTH,
        0 <= y,
    ensures
        col(idx(x, y)) == x,
        row(idx(x, y)) == y,
        idx(x, y) >= 0,
{
    assert((y * 240 + x) % 240 == x && (y * 240 + x) / 240 == y) by (nonlinear_arith)
        requires
            0 <= x < 240,
            0 <= y,
    ;
}

/// Set the color of a single pixel in packed 4-bit pixel data.
pub fn set_nibble(data: &mut Vec<u8>, i: usize, c: u8)
    requires
        i / 2 < old(data)@.len(),
        c < 16,
    ensures
        final(data)@.len() == old(data)@.len(),
        nibble(final(data)@, i as int) == c,
        forall|k: int| 0 <= k < 2 * old(data)@.len() && k != i ==> #[trigger] nibble(final(data)@, k)
            == nibble(old(data)@, k),
        forall|j: int| 0 <= j < old(data)@.len() && j != i / 2 ==> #[trigger] final(data)@[j] == old(
            data,
        )@[j],
{
    let byte_index = i / 2;
    let byte = data[byte_index];
    if i % 2 == 0 {
        proof {
            lemma_set_lo(byte, c);
        }
        data.set(byte_index, c | (byte & 0xf0u8));
    } else {
        proof {
            lemma_set_hi(byte, c);
        }
        data.set(byte_index, ((c << 4u8) | (byte & 0x0fu8)) as u8);
    }
}

/// Duplicate the color and pack into 1 byte.
pub fn color_to_byte(c: u8) -> (res: u8)
    requires
        c < 16,
    ensures
        lo(res) == c,
        hi(res) == c,
{
    proof {
        lemma_double(c);
    }
    (c | (c << 4u8)) as u8
}

/// The packed 16-color frame buffer the apps draw on.
pub struct FrameBuffer {
    /// Tightly packed pixel data, 4 bits per pixel (2 pixels per byte).
    pub data: Vec<u8>,
    /// The color palette. Maps 16-color packed pixels to RGB colors.
    pub palette: [Rgb16; 16],
    /// True if the buffer changed since it was drawn on the screen.
    pub dirty: bool,
}

impl FrameBuffer {
    /// The buffer holds exactly one byte per two pixels of the screen.
    pub open spec fn wf(&self) -> bool {
        self.data@.len() == BUFFER_SIZE
    }

    /// The color (palette index) of the pixel with the given index.
    pub open spec fn pixel(&self, i: int) -> u8 {
        nibble(self.data@, i)
    }

    /// Set color of a single pixel at the given coordinates.
    ///
    /// Pixels outside of the screen are ignored.
    /// Does NOT mark the buffer as dirty. This must be done by the caller.
    pub fn set_pixel(&mut self, x: i32, y: i32, color: u8)
        requires
            old(self).wf(),
            color < 16,
        ensures
            final(self).wf(),
            final(self).palette == old(self).palette,
            final(self).dirty == old(self).dirty,
            forall|i: int| 0 <= i < N_PIXELS ==> #[trigger] final(self).pixel(i) == (if on_screen(
                x as int,
                y as int,
            ) && i == idx(x as int, y as int) { color } else { old(self).pixel(i) }),
    {
        if x < 0 || y < 0 || x >= WIDTH as i32 || y >= HEIGHT as i32 {
            return;  // the pixel is out of bounds
        }
        let pixel_index = y as usize * WIDTH + x as usize;
        set_nibble(&mut self.data, pixel_index, color);
    }

    /// Render 1-pixel-wide vertical line from `top_y` (inclusive) to `bottom_y` (exclusive).
    pub fn draw_vline1(&mut self, x: usize, top_y: usize, bottom_y: usize, c: u8)
        requires
            old(self).wf(),
            c < 16,
            x < WIDTH,
            top_y <= bottom_y <= HEIGHT,
        ensures
            final(self).wf(),
            final(self).palette == old(self).palette,
            final(self).dirty == old(self).dirty,
            forall|i: int| 0 <= i < N_PIXELS ==> #[trigger] final(self).pixel(i) == (if in_area(
                i,
                x as int,
                x + 1,
                top_y as int,
                bottom_y as int,
            ) { c } else { old(self).pixel(i) }),
    {
        let ghost old_self = *self;
        let mut y = top_y;
        while y < bottom_y
            invariant
                self.wf(),
                self.palette == old_self.palette,
                self.dirty == old_self.dirty,
                x < WIDTH,
                top_y <= y <= bottom_y <= HEIGHT,
                c < 16,
                forall|i: int| 0 <= i < N_PIXELS ==> #[trigger] self.pixel(i) == (if in_area(
                    i,
                    x as int,
                    x + 1,
                    top_y as int,
                    y as int,
                ) { c } else { old_self.pixel(i) }),
            decreases bottom_y - y,
        {
            let ghost prev = *self;
            let pixel_index = y * WIDTH + x;
            proof {
                lemma_idx(x as int, y as int);
            }
            set_nibble(&mut self.data, pixel_index, c);
            proof {
                assert forall|i: int| 0 <= i < N_PIXELS implies #[trigger] self.pixel(i) == (if in_area(
                    i,
                    x as int,
                    x + 1,
                    top_y as int,
                    y + 1,
                ) { c } else { old_self.pixel(i) }) by {
                    if i != pixel_index {
                        assert(self.pixel(i) == prev.pixel(i));
                        if in_area(i, x as int, x + 1, top_y as int, y + 1) && !in_area(
                            i,
                            x as int,
                            x + 1,
                            top_y as int,
                            y as int,
                        ) {
                            assert(col(i) == x && row(i) == y);
                            assert(i == row(i) * 240 + col(i));
                        }
                    }
                }
            }
            y = y + 1;
        }
    }

    /// Fill the pixels `[start_x, end_x)` of the row `y` with the color,
    /// writing whole bytes. Both bounds must be even.
    fn fill_row_bytes(&mut self, y: usize, start_x: usize, end_x: usize, c: u8)
        requires
            old(self).wf(),
            c < 16,
            y < HEIGHT,
            start_x <= end_x <= WIDTH,
            start_x % 2 == 0,
            end_x % 2 == 0,
        ensures
            final(self).wf(),
            final(self).palette == old(self).palette,
            final(self).dirty == old(self).dirty,
            forall|i: int| 0 <= i < N_PIXELS ==> #[trigger] final(self).pixel(i) == (if in_area(
                i,
                start_x as int,
                end_x as int,
                y as int,
                y + 1,
            ) { c } else { old(self).pixel(i) }),
    {
        let ghost old_self = *self;
        let new_byte = color_to_byte(c);
        let start_i = y * WIDTH / 2 + start_x / 2;
        let end_i = start_i + (end_x - start_x) / 2;
        let mut j = start_i;
        while j < end_i
            invariant
                self.wf(),
                self.palette == old_self.palette,
                self.dirty == old_self.dirty,
                c < 16,
                y < HEIGHT,
                start_x <= end_x <= WIDTH,
                start_x % 2 == 0,
                end_x % 2 == 0,
                start_i == y * 120 + start_x / 2,
                end_i == start_i + (end_x - start_x) / 2,
                start_i <= j <= end_i,
                lo(new_byte) == c,
                hi(new_byte) == c,
                forall|i: int| 0 <= i < N_PIXELS ==> #[trigger] self.pixel(i) == (if in_area(
                    i,
                    start_x as int,
                    start_x + 2 * (j - start_i),
                    y as int,
                    y + 1,
                ) { c } else { old_self.pixel(i) }),
            decreases end_i - j,
        {
            let ghost prev = *self;
            self.data.set(j, new_byte);
            proof {
                assert forall|i: int| 0 <= i < N_PIXELS implies #[trigger] self.pixel(i) == (if in_area(
                    i,
                    start_x as int,
                    start_x + 2 * (j + 1 - start_i),
                    y as int,
                    y + 1,
                ) { c } else { old_self.pixel(i) }) by {
                    lemma_pixel_of_byte(i);
                    if i / 2 == j {
                        assert(self.pixel(i) == c);
                        assert((j as int) / 120 == y);
                        assert((j as int) % 120 == start_x / 2 + (j - start_i));
                    } else {
                        assert(self.pixel(i) == prev.pixel(i));
                        let jj = i / 2;
                        if jj / 120 == y {
                            assert(jj % 120 == jj - y * 120);
                        }
                    }
                }
            }
            j = j + 1;
        }
    }
}

/// Clamp the value into the given range.
pub open spec fn clamp(v: int, min: int, max: int) -> int {
    if v < min {
        min
    } else if v > max {
        max
    } else {
        v
    }
}

/// A rectangle on the screen given by its top-left corner and its size.
#[derive(Debug, Clone, Copy, PartialEq, Eq, Structural)]
pub struct Rect {
    pub x: i32,
    pub y: i32,
    pub width: u32,
    pub height: u32,
}

impl Rect {
    /// The right edge (exclusive) as the frame buffer computes it:
    /// the width is reinterpreted as a signed 32-bit number.
    pub open spec fn right(self) -> int {
        self.x + (self.width as i32)
    }

    /// The bottom edge (exclusive), computed like the right edge.
    pub open spec fn bottom(self) -> int {
        self.y + (self.height as i32)
    }

    /// The rectangle can be filled: its edges fit into i32 and,
    /// clamped to the screen, don't end before they start.
    pub open spec fn fillable(self) -> bool {
        &&& i32::MIN <= self.right() <= i32::MAX
        &&& i32::MIN <= self.bottom() <= i32::MAX
        &&& clamp(self.right(), 0, WIDTH as int) >= clamp(self.x as int, 0, WIDTH as int)
        &&& clamp(self.bottom(), 0, HEIGHT as int) >= clamp(self.y as int, 0, HEIGHT as int)
    }

    /// True if the pixel with the given index is inside the rectangle (clipped to the screen).
    pub open spec fn covers(self, i: int) -> bool {
        in_area(
            i,
            clamp(self.x as int, 0, WIDTH as int),
            clamp(self.right(), 0, WIDTH as int),
            clamp(self.y as int, 0, HEIGHT as int),
            clamp(self.bottom(), 0, HEIGHT as int),
        )
    }
}

fn clamp_i32(v: i32, min: i32, max: i32) -> (res: i32)
    requires
        min <= max,
    ensures
        res == clamp(v as int, min as int, max as int),
{
    if v < min {
        min
    } else if v > max {
        max
    } else {
        v
    }
}

impl FrameBuffer {
    /// Set every pixel to the given color.
    pub fn clear(&mut self, color: u8)
        requires
            old(self).wf(),
            color < 16,
        ensures
            final(self).wf(),
            final(self).palette == old(self).palette,
            final(self).dirty,
            forall|i: int| 0 <= i < N_PIXELS ==> #[trigger] final(self).pixel(i) == color,
    {
        self.dirty = true;
        let ghost old_palette = self.palette;
        let new_byte = color_to_byte(color);
        let mut j: usize = 0;
        while j < BUFFER_SIZE
            invariant
                self.wf(),
                self.dirty,
                self.palette == old_palette,
                0 <= j <= BUFFER_SIZE,
                lo(new_byte) == color,
                hi(new_byte) == color,
                forall|k: int| 0 <= k < j ==> #[trigger] self.data@[k] == new_byte,
            decreases BUFFER_SIZE - j,
        {
            self.data.set(j, new_byte);
            j = j + 1;
        }
    }

    /// Fill the rectangle (clipped to the screen) with the color.
    pub fn fill_solid(&mut self, area: Rect, color: u8)
        requires
            old(self).wf(),
            color < 16,
            area.fillable(),
        ensures
            final(self).wf(),
            final(self).palette == old(self).palette,
            final(self).dirty,
            forall|i: int| 0 <= i < N_PIXELS ==> #[trigger] final(self).pixel(i) == (if area.covers(i) {
                color
            } else {
                old(self).pixel(i)
            }),
    {
        self.dirty = true;
        let ghost old_self = *self;
        let left_x = clamp_i32(area.x, 0, WIDTH as i32) as usize;
        let right_x = area.x + area.width as i32;
        let right_x = clamp_i32(right_x, 0, WIDTH as i32) as usize;

        let top_y = clamp_i32(area.y, 0, HEIGHT as i32) as usize;
        let bottom_y = area.y + area.height as i32;
        let bottom_y = clamp_i32(bottom_y, 0, HEIGHT as i32) as usize;

        if right_x - left_x <= 4 {
            let mut x = left_x;
            while x < right_x
                invariant
                    self.wf(),
                    self.palette == old_self.palette,
                    self.dirty,
                    color < 16,
                    left_x <= x <= right_x <= WIDTH,
                    top_y <= bottom_y <= HEIGHT,
                    forall|i: int| 0 <= i < N_PIXELS ==> #[trigger] self.pixel(i) == (if in_area(
                        i,
                        left_x as int,
                        x as int,
                        top_y as int,
                        bottom_y as int,
                    ) { color } else { old_self.pixel(i) }),
                decreases right_x - x,
            {
                self.draw_vline1(x, top_y, bottom_y, color);
                x = x + 1;
            }
            return;
        }

        let left_fract = left_x % 2 == 1;
        let right_fract = right_x % 2 == 1;
        let start_x = if left_fract { left_x + 1 } else { left_x };
        let end_x = if right_fract { right_x - 1 } else { right_x };

        let mut y = top_y;
        while y < bottom_y
            invariant
                self.wf(),
                self.palette == old_self.palette,
                self.dirty,
                color < 16,
                start_x <= end_x <= WIDTH,
                start_x % 2 == 0,
                end_x % 2 == 0,
                top_y <= y <= bottom_y <= HEIGHT,
                forall|i: int| 0 <= i < N_PIXELS ==> #[trigger] self.pixel(i) == (if in_area(
                    i,
                    start_x as int,
                    end_x as int,
                    top_y as int,
                    y as int,
                ) { color } else { old_self.pixel(i) }),
            decreases bottom_y - y,
        {
            self.fill_row_bytes(y, start_x, end_x, color);
            y = y + 1;
        }

        if left_fract {
            self.draw_vline1(left_x, top_y, bottom_y, color);
        }
        if right_fract {
            self.draw_vline1(right_x - 1, top_y, bottom_y, color);
        }
    }
}


/// The rectangle that a horizontal line of the given stroke width covers.
///
/// The stroke is centered on the line; for an even width drawn from right
/// to left, the extra row goes below the line.
pub open spec fn hline_area(x1: i32, x2: i32, y: i32, w: u32) -> Rect {
    let left = if x1 > x2 { x2 } else { x1 };
    let right = if x1 > x2 { x1 } else { x2 };
    let top = y - (w / 2) + (if x1 > x2 && w % 2 == 0 { 1int } else { 0int });
    Rect { x: left, y: top as i32, width: (right - left + 1) as u32, height: w }
}

/// The rectangle that a vertical line of the given stroke width covers.
pub open spec fn vline_area(x: i32, y1: i32, y2: i32, w: u32) -> Rect {
    let top = if y1 > y2 { y2 } else { y1 };
    let down = if y1 > y2 { y1 } else { y2 };
    let left = x - (w / 2) + (if y1 > y2 && w % 2 == 0 { 1int } else { 0int });
    Rect { x: left as i32, y: top, width: w, height: (down - top + 1) as u32 }
}

/// The horizontal line can be drawn: its coordinates fit into i32.
pub open spec fn hline_ok(x1: i32, x2: i32, y: i32, w: u32) -> bool {
    let left = if x1 > x2 { x2 } else { x1 };
    let right = if x1 > x2 { x1 } else { x2 };
    &&& i32::MIN <= y - (w / 2) <= i32::MAX
    &&& (x1 > x2 && w % 2 == 0) ==> y - (w / 2) + 1 <= i32::MAX
    &&& right - left + 1 <= i32::MAX
    &&& hline_area(x1, x2, y, w).fillable()
}

/// The vertical line can be drawn: its coordinates fit into i32.
pub open spec fn vline_ok(x: i32, y1: i32, y2: i32, w: u32) -> bool {
    let top = if y1 > y2 { y2 } else { y1 };
    let down = if y1 > y2 { y1 } else { y2 };
    &&& i32::MIN <= x - (w / 2) <= i32::MAX
    &&& (y1 > y2 && w % 2 == 0) ==> x - (w / 2) + 1 <= i32::MAX
    &&& down - top + 1 <= i32::MAX
    &&& vline_area(x, y1, y2, w).fillable()
}

impl Rect {
    /// True if the rectangle can be filled, see [`Rect::fillable`].
    pub fn fill_allowed(&self) -> (res: bool)
        ensures
            res == self.fillable(),
    {
        let right = self.x as i64 + (self.width as i32) as i64;
        let bottom = self.y as i64 + (self.height as i32) as i64;
        if right < i32::MIN as i64 || right > i32::MAX as i64 || bottom < i32::MIN as i64 || bottom
            > i32::MAX as i64 {
            return false;
        }
        clamp_i64(right, 240) >= clamp_i64(self.x as i64, 240) && clamp_i64(bottom, 160) >= clamp_i64(
            self.y as i64,
            160,
        )
    }
}

fn clamp_i64(v: i64, max: i64) -> (res: i64)
    requires
        0 <= max,
    ensures
        res == clamp(v as int, 0, max as int),
{
    if v < 0 {
        0
    } else if v > max {
        max
    } else {
        v
    }
}

/// True if the horizontal line can be drawn, see [`hline_ok`].
pub fn hline_allowed(x1: i32, x2: i32, y: i32, w: u32) -> (res: bool)
    ensures
        res == hline_ok(x1, x2, y, w),
{
    let left = if x1 > x2 { x2 } else { x1 };
    let right = if x1 > x2 { x1 } else { x2 };
    let top = y as i64 - (w / 2) as i64;
    if top < i32::MIN as i64 || top > i32::MAX as i64 {
        return false;
    }
    if x1 > x2 && w % 2 == 0 && top + 1 > i32::MAX as i64 {
        return false;
    }
    if right as i64 - left as i64 + 1 > i32::MAX as i64 {
        return false;
    }
    let top = if x1 > x2 && w % 2 == 0 { top + 1 } else { top };
    let area = Rect { x: left, y: top as i32, width: (right as i64 - left as i64 + 1) as u32, height: w };
    assert(area == hline_area(x1, x2, y, w));
    area.fill_allowed()
}

/// True if the vertical line can be drawn, see [`vline_ok`].
pub fn vline_allowed(x: i32, y1: i32, y2: i32, w: u32) -> (res: bool)
    ensures
        res == vline_ok(x, y1, y2, w),
{
    let top = if y1 > y2 { y2 } else { y1 };
    let down = if y1 > y2 { y1 } else { y2 };
    let left = x as i64 - (w / 2) as i64;
    if left < i32::MIN as i64 || left > i32::MAX as i64 {
        return false;
    }
    if y1 > y2 && w % 2 == 0 && left + 1 > i32::MAX as i64 {
        return false;
    }
    if down as i64 - top as i64 + 1 > i32::MAX as i64 {
        return false;
    }
    let left = if y1 > y2 && w % 2 == 0 { left + 1 } else { left };
    let area = Rect { x: left as i32, y: top, width: w, height: (down as i64 - top as i64 + 1) as u32 };
    assert(area == vline_area(x, y1, y2, w));
    area.fill_allowed()
}

impl FrameBuffer {
    /// Draw a horizontal line fast: fill the rectangle that its stroke covers,
    /// see [`hline_area`].
    pub fn draw_hline(&mut self, x1: i32, x2: i32, y: i32, w: u32, c: u8)
        requires
            old(self).wf(),
            c < 16,
            hline_ok(x1, x2, y, w),
        ensures
            final(self).wf(),
            final(self).palette == old(self).palette,
            final(self).dirty,
            forall|i: int| 0 <= i < N_PIXELS ==> #[trigger] final(self).pixel(i) == (if hline_area(
                x1,
                x2,
                y,
                w,
            ).covers(i) { c } else { old(self).pixel(i) }),
    {
        let mut left = x1;
        let mut right = x2;
        let mut y = y - (w / 2) as i32;
        if left > right {
            let tmp = left;
            left = right;
            right = tmp;
            if w % 2 == 0 {
                y = y + 1;
            }
        }
        let area = Rect { x: left, y, width: (right - left + 1) as u32, height: w };
        self.fill_solid(area, c);
    }

    /// Draw a vertical line fast: fill the rectangle that its stroke covers,
    /// see [`vline_area`].
    pub fn draw_vline(&mut self, x: i32, y1: i32, y2: i32, w: u32, c: u8)
        requires
            old(self).wf(),
            c < 16,
            vline_ok(x, y1, y2, w),
        ensures
            final(self).wf(),
            final(self).palette == old(self).palette,
            final(self).dirty,
            forall|i: int| 0 <= i < N_PIXELS ==> #[trigger] final(self).pixel(i) == (if vline_area(
                x,
                y1,
                y2,
                w,
            ).covers(i) { c } else { old(self).pixel(i) }),
    {
        let mut top = y1;
        let mut down = y2;
        let mut x = x - (w / 2) as i32;
        if top > down {
            let tmp = top;
            top = down;
            down = tmp;
            if w % 2 == 0 {
                x = x + 1;
            }
        }
        let area = Rect { x, y: top, width: w, height: (down - top + 1) as u32 };
        self.fill_solid(area, c);
    }
}


/// The RGB888 components of a color as they are written into screenshots.
pub open spec fn rgb888_of(c: Rgb16) -> (u8, u8, u8) {
    let (r, g, b) = spec_into_rgb(c);
    (if r == 0xf8 { 0xffu8 } else { r }, if g == 0xfc { 0xffu8 } else { g }, if b == 0xf8 {
        0xffu8
    } else {
        b
    })
}

/// Serialize the palette as continuous RGB bytes: 3 bytes (R, G, B) per color.
pub fn encode_palette(palette: &[Rgb16; 16]) -> (res: Vec<u8>)
    ensures
        res@.len() == 48,
        forall|i: int| 0 <= i < 16 ==> {
            let (r, g, b) = #[trigger] rgb888_of(palette@[i]);
            res@[3 * i] == r && res@[3 * i + 1] == g && res@[3 * i + 2] == b
        },
{
    let mut encoded: Vec<u8> = Vec::new();
    let mut i: usize = 0;
    while i < 16
        invariant
            0 <= i <= 16,
            encoded@.len() == 3 * i,
            forall|k: int| 0 <= k < i ==> {
                let (r, g, b) = #[trigger] rgb888_of(palette@[k]);
                encoded@[3 * k] == r && encoded@[3 * k + 1] == g && encoded@[3 * k + 2] == b
            },
        decreases 16 - i,
    {
        let (r, g, b) = palette[i].into_rgb888();
        encoded.push(r);
        encoded.push(g);
        encoded.push(b);
        i = i + 1;
    }
    encoded
}

/// The screenshot file: the marker byte 0x41, the palette as RGB bytes,
/// and the raw packed frame buffer.
pub fn encode_shot(palette: &[Rgb16; 16], frame: &[u8]) -> (res: Vec<u8>)
    requires
        frame@.len() + 49 <= usize::MAX,
    ensures
        res@.len() == 49 + frame@.len(),
        res@[0] == 0x41,
        forall|i: int| 0 <= i < 16 ==> {
            let (r, g, b) = #[trigger] rgb888_of(palette@[i]);
            res@[1 + 3 * i] == r && res@[2 + 3 * i] == g && res@[3 + 3 * i] == b
        },
        res@.subrange(49, res@.len() as int) == frame@,
{
    let mut out: Vec<u8> = Vec::new();
    out.push(0x41);
    let pal = encode_palette(palette);
    let mut i: usize = 0;
    while i < 48
        invariant
            0 <= i <= 48,
            pal@.len() == 48,
            out@.len() == 1 + i,
            out@[0] == 0x41,
            forall|k: int| 0 <= k < i ==> #[trigger] out@[1 + k] == pal@[k],
        decreases 48 - i,
    {
        out.push(pal[i]);
        i = i + 1;
    }
    let mut j: usize = 0;
    while j < frame.len()
        invariant
            0 <= j <= frame@.len(),
            frame@.len() + 49 <= usize::MAX,
            pal@.len() == 48,
            out@.len() == 49 + j,
            out@[0] == 0x41,
            forall|k: int| 0 <= k < 48 ==> #[trigger] out@[1 + k] == pal@[k],
            forall|k: int| 0 <= k < j ==> #[trigger] out@[49 + k] == frame@[k],
        decreases frame@.len() - j,
    {
        out.push(frame[j]);
        j = j + 1;
    }
    proof {
        assert forall|k: int| 0 <= k < frame@.len() implies #[trigger] out@.subrange(49, out@.len() as int)[k] == frame@[k] by {
            assert(out@[49 + k] == frame@[k]);
        }
        assert(out@.subrange(49, out@.len() as int) =~= frame@);
        assert forall|i: int| 0 <= i < 16 implies {
            let (r, g, b) = #[trigger] rgb888_of(palette@[i]);
            out@[1 + 3 * i] == r && out@[2 + 3 * i] == g && out@[3 + 3 * i] == b
        } by {
            assert(out@[1 + 3 * i] == pal@[3 * i]);
            assert(out@[1 + (3 * i + 1)] == pal@[3 * i + 1]);
            assert(out@[1 + (3 * i + 2)] == pal@[3 * i + 2]);
        }
    }
    out
}

impl FrameBuffer {
    /// A new frame buffer: all pixels have color 0, the palette is the default one.
    pub fn new() -> (res: Self)
        ensures
            res.wf(),
            !res.dirty,
            res.palette@ == default_palette_seq(),
            forall|i: int| 0 <= i < N_PIXELS ==> #[trigger] res.pixel(i) == 0,
    {
        let mut data: Vec<u8> = Vec::new();
        let mut j: usize = 0;
        while j < BUFFER_SIZE
            invariant
                0 <= j <= BUFFER_SIZE,
                data@.len() == j,
                forall|k: int| 0 <= k < j ==> #[trigger] data@[k] == 0,
            decreases BUFFER_SIZE - j,
        {
            data.push(0);
            j = j + 1;
        }
        assert(lo(0) == 0 && hi(0) == 0) by (bit_vector);
        Self { data, palette: default_palette(), dirty: false }
    }

    /// The screen color of the pixel with the given index:
    /// the palette color for the pixel's palette index.
    pub fn color_at(&self, index: usize) -> (res: Option<Rgb16>)
        requires
            self.wf(),
        ensures
            index < N_PIXELS ==> res == Some(self.palette@[self.pixel(index as int) as int]),
            index >= N_PIXELS ==> res is None,
    {
        let byte_index = index / 2;
        if byte_index >= self.data.len() {
            return None;
        }
        let byte = self.data[byte_index];
        proof {
            lemma_nibble_bound(byte);
        }
        let luma = if index % 2 == 0 { byte & 15u8 } else { byte >> 4u8 };
        Some(self.palette[luma as usize])
    }

    /// The screen colors of all pixels, row by row, as they are sent to the display.
    pub fn screen_colors(&self) -> (res: Vec<Rgb16>)
        requires
            self.wf(),
        ensures
            res@.len() == N_PIXELS,
            forall|i: int| 0 <= i < N_PIXELS ==> #[trigger] res@[i] == self.palette@[self.pixel(i) as int],
    {
        let mut out: Vec<Rgb16> = Vec::new();
        let mut i: usize = 0;
        while i < N_PIXELS
            invariant
                self.wf(),
                0 <= i <= N_PIXELS,
                out@.len() == i,
                forall|k: int| 0 <= k < i ==> #[trigger] out@[k] == self.palette@[self.pixel(k) as int],
            decreases N_PIXELS - i,
        {
            let c = self.color_at(i);
            out.push(c.unwrap());
            i = i + 1;
        }
        out
    }

    /// The colors of both pixels of every byte: (even pixel, odd pixel).
    pub fn iter_pairs(&self) -> (res: Vec<(Rgb16, Rgb16)>)
        requires
            self.wf(),
        ensures
            res@.len() == BUFFER_SIZE,
            forall|j: int| 0 <= j < BUFFER_SIZE ==> #[trigger] res@[j] == (
                self.palette@[self.pixel(2 * j) as int],
                self.palette@[self.pixel(2 * j + 1) as int],
            ),
    {
        let mut out: Vec<(Rgb16, Rgb16)> = Vec::new();
        let mut j: usize = 0;
        while j < BUFFER_SIZE
            invariant
                self.wf(),
                0 <= j <= BUFFER_SIZE,
                out@.len() == j,
                forall|k: int| 0 <= k < j ==> #[trigger] out@[k] == (
                    self.palette@[self.pixel(2 * k) as int],
                    self.palette@[self.pixel(2 * k + 1) as int],
                ),
            decreases BUFFER_SIZE - j,
        {
            let right = self.color_at(2 * j).unwrap();
            let left = self.color_at(2 * j + 1).unwrap();
            out.push((right, left));
            j = j + 1;
        }
        out
    }

    /// Prepare the frame for drawing on the screen.
    ///
    /// Returns false (and does nothing) if nothing changed since the last draw.
    /// Otherwise, clears the dirty flag and returns true: the caller then sends
    /// [`FrameBuffer::screen_colors`] to the display.
    pub fn start_draw(&mut self) -> (res: bool)
        ensures
            res == old(self).dirty,
            !final(self).dirty,
            final(self).data == old(self).data,
            final(self).palette == old(self).palette,
    {
        if !self.dirty {
            return false;
        }
        self.dirty = false;
        true
    }
}


/// All pixels of packed pixel data, as palette indices.
pub open spec fn pixels(data: Seq<u8>) -> Seq<u8> {
    Seq::new(N_PIXELS as nat, |i: int| nibble(data, i))
}

/// Set the pixel at the given coordinates, unless the color is the transparent one
/// or the point is outside of the screen.
pub open spec fn put(pix: Seq<u8>, x: int, y: int, c: u8, transp: u8) -> Seq<u8> {
    if c != transp && on_screen(x, y) {
        pix.update(idx(x, y), c)
    } else {
        pix
    }
}

impl FrameBuffer {
    /// All pixels of the frame buffer, as palette indices.
    pub open spec fn view_pixels(&self) -> Seq<u8> {
        pixels(self.data@)
    }

    /// Set the pixel unless its color is the transparent one.
    pub fn put_pixel(&mut self, x: i32, y: i32, c: u8, transp: u8)
        requires
            old(self).wf(),
            c < 16,
        ensures
            final(self).wf(),
            final(self).palette == old(self).palette,
            final(self).dirty == old(self).dirty,
            final(self).view_pixels() == put(old(self).view_pixels(), x as int, y as int, c, transp),
    {
        let ghost old_self = *self;
        if c != transp {
            self.set_pixel(x, y, c);
        }
        proof {
            if c != transp && on_screen(x as int, y as int) {
                lemma_idx(x as int, y as int);
                assert forall|i: int| 0 <= i < N_PIXELS implies #[trigger] self.view_pixels()[i]
                    == old_self.view_pixels().update(idx(x as int, y as int), c)[i] by {
                    assert(self.view_pixels()[i] == self.pixel(i));
                    assert(old_self.view_pixels()[i] == old_self.pixel(i));
                }
                assert(self.view_pixels() =~= old_self.view_pixels().update(idx(x as int, y as int), c));
            } else {
                assert forall|i: int| 0 <= i < N_PIXELS implies #[trigger] self.view_pixels()[i]
                    == old_self.view_pixels()[i] by {
                    assert(self.view_pixels()[i] == self.pixel(i));
                    assert(old_self.view_pixels()[i] == old_self.pixel(i));
                }
                assert(self.view_pixels() =~= old_self.view_pixels());
            }
        }
    }
}


/// Writing a byte of packed pixel data sets both of its pixels.
pub proof fn lemma_set_byte(data: Seq<u8>, j: int, b: u8)
    requires
        data.len() == BUFFER_SIZE,
        0 <= j < BUFFER_SIZE,
    ensures
        pixels(data.update(j, b)) == pixels(data).update(2 * j, lo(b)).update(2 * j + 1, hi(b)),
{
    let d2 = data.update(j, b);
    assert forall|i: int| 0 <= i < N_PIXELS implies #[trigger] pixels(d2)[i] == pixels(data).update(
        2 * j,
        lo(b),
    ).update(2 * j + 1, hi(b))[i] by {
        if i / 2 != j {
            assert(d2[i / 2] == data[i / 2]);
        }
    }
    assert(pixels(d2) =~= pixels(data).update(2 * j, lo(b)).update(2 * j + 1, hi(b)));
}

/// The byte with its two halves swapped.
pub open spec fn rotate4(b: u8) -> u8 {
    ((b >> 4u8) | (b << 4u8)) as u8
}

/// Swap the two pixels of a byte.
pub fn swap_nibbles(b: u8) -> (res: u8)
    ensures
        lo(res) == hi(b),
        hi(res) == lo(b),
        res == rotate4(b),
{
    assert(((((b >> 4u8) | (b << 4u8)) as u8) & 15u8) == (b >> 4u8) && ((((b >> 4u8) | (b << 4u8))
        as u8) >> 4u8) == (b & 15u8)) by (bit_vector);
    ((b >> 4u8) | (b << 4u8)) as u8
}

} // verus!
