use vstd::prelude::*;
use crate::frame_buffer::{lo, hi, nibble, lemma_set_lo, lemma_set_hi};

verus! {

/// A draw target in the app memory: the bytes `[start, end)`, `width` pixels wide.
#[derive(Debug, Clone, Copy, PartialEq, Eq, Structural)]
pub struct Canvas {
    pub start: usize,
    pub end: usize,
    pub width: usize,
}

impl Canvas {
    pub fn new(start: u32, size: u32, width: u32) -> (res: Self)
        requires
            start + size <= u32::MAX,
        ensures
            res.start == start,
            res.end == start + size,
            res.width == width,
    {
        Canvas { start: start as usize, end: (start + size) as usize, width: width as usize }
    }

    /// The canvas height: the number of whole lines its bytes hold.
    pub fn height(&self) -> (res: usize)
        requires
            self.start <= self.end,
            self.width > 0,
            (self.end - self.start) * 2 <= usize::MAX,
        ensures
            res == (self.end - self.start) * 2 / (self.width as int),
    {
        (self.end - self.start) * 2 / self.width
    }
}

/// Set the pixel at `(x, y)` of a canvas of the given size to the color
/// (palette index); pixels outside of the canvas are ignored.
///
/// It works just like the frame buffer but the width and height are defined at runtime.
pub fn canvas_set_pixel(data: &mut [u8], width: usize, height: usize, x: i32, y: i32, color: u8)
    requires
        color < 16,
        height * width <= 2 * old(data)@.len(),
        height * width <= usize::MAX,
    ensures
        final(data)@.len() == old(data)@.len(),
        forall|k: int| 0 <= k < 2 * old(data)@.len() ==> #[trigger] nibble(final(data)@, k) == (
        if 0 <= x < width && 0 <= y < height && k == y * width + x {
            color
        } else {
            nibble(old(data)@, k)
        }),
{
    if x < 0 || y < 0 {
        return;
    }
    let xu = x as usize;
    let yu = y as usize;
    if yu >= height || xu >= width {
        return;  // the pixel is out of bounds
    }
    assert(yu * width + xu < height * width && yu * width <= yu * width + xu) by (nonlinear_arith)
        requires
            yu < height,
            xu < width,
    ;
    let pixel_index = yu * width + xu;
    let byte_index = pixel_index / 2;
    let byte = data[byte_index];
    let new_byte: u8 = if pixel_index % 2 == 0 {
        proof {
            lemma_set_lo(byte, color);
        }
        color | (byte & 0xf0u8)
    } else {
        proof {
            lemma_set_hi(byte, color);
        }
        ((color << 4u8) | (byte & 0x0fu8)) as u8
    };
    if new_byte == byte {
        return;
    }
    data[byte_index] = new_byte;
}

} // verus!
