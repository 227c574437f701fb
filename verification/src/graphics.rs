use vstd::prelude::*;
use vstd::string::StringSliceAdditionalSpecFns;
use crate::files::str_from_utf8;
use crate::frame_buffer::{FrameBuffer, Rect};
use crate::image::{ParsedImage, render_ok, render_result, render_draws};

verus! {

/// Why an image from the app memory cannot be drawn.
#[derive(Debug, Clone, Copy, PartialEq, Eq, Structural)]
pub enum ImageError {
    /// The image pointer is zero and the image is too small.
    NilPointer,
    /// The image is empty.
    Empty,
    /// The image is shorter than the smallest header.
    TooSmall,
    /// The image header says the image is zero pixels wide.
    ZeroWidth,
    /// The header gives a bits-per-pixel value other than 1, 2, and 4.
    InvalidBpp,
    /// The image ends inside of the palette swaps.
    HeaderTooSmall,
    /// The pixel count is not a multiple of the width.
    InvalidWidth,
    /// A canvas is set, and images cannot be drawn on it.
    OnCanvas,
}

impl ImageError {
    /// The message logged for the error.
    pub fn message(&self) -> (res: &'static str)
        ensures
            res == match *self {
                ImageError::NilPointer => "image is a nil pointer: make sure you've loaded it",
                ImageError::Empty => "image file is empty: make sure you load it with the correct name",
                ImageError::TooSmall => "image file is too small",
                ImageError::ZeroWidth => "image has zero width",
                ImageError::InvalidBpp => "invalid BPP value",
                ImageError::HeaderTooSmall => "the image file header is too small",
                ImageError::InvalidWidth => "the image has invalid width",
                ImageError::OnCanvas => "images cannot be drawn on canvas yet",
            },
    {
        match self {
            ImageError::NilPointer => "image is a nil pointer: make sure you've loaded it",
            ImageError::Empty => "image file is empty: make sure you load it with the correct name",
            ImageError::TooSmall => "image file is too small",
            ImageError::ZeroWidth => "image has zero width",
            ImageError::InvalidBpp => "invalid BPP value",
            ImageError::HeaderTooSmall => "the image file header is too small",
            ImageError::InvalidWidth => "the image has invalid width",
            ImageError::OnCanvas => "images cannot be drawn on canvas yet",
        }
    }
}

/// The image width from the header: a 16-bit little-endian number at bytes 2 and 3.
pub open spec fn header_width(b: Seq<u8>) -> int {
    b[2] + 256 * b[3]
}

/// The number of palette swap bytes in the header for the given bits per pixel.
pub open spec fn swaps_len(bpp: u8) -> int {
    if bpp == 1 {
        1
    } else if bpp == 2 {
        2
    } else {
        8
    }
}

/// The number of pixels in a byte for the given bits per pixel.
pub open spec fn pixels_per_byte(bpp: u8) -> int {
    if bpp == 1 {
        8
    } else if bpp == 2 {
        4
    } else {
        2
    }
}

/// Where the pixels start: after the 5 bytes of the header and the palette swaps.
pub open spec fn pixels_start(b: Seq<u8>) -> int {
    5 + swaps_len(b[1])
}

/// The error for an image file, or None if it can be drawn.
///
/// An image file starts with a marker byte, the bits per pixel, the width
/// (16 bits, little-endian), the transparent color, and the palette swaps.
pub open spec fn image_error(nil_pointer: bool, b: Seq<u8>, has_canvas: bool) -> Option<ImageError> {
    if b.len() < 7 {
        if nil_pointer {
            Some(ImageError::NilPointer)
        } else if b.len() == 0 {
            Some(ImageError::Empty)
        } else {
            Some(ImageError::TooSmall)
        }
    } else if header_width(b) == 0 {
        Some(ImageError::ZeroWidth)
    } else if b[1] != 1 && b[1] != 2 && b[1] != 4 {
        Some(ImageError::InvalidBpp)
    } else if b.len() < pixels_start(b) {
        Some(ImageError::HeaderTooSmall)
    } else if ((b.len() - pixels_start(b)) * pixels_per_byte(b[1])) % header_width(b) != 0 {
        Some(ImageError::InvalidWidth)
    } else if has_canvas {
        Some(ImageError::OnCanvas)
    } else {
        None
    }
}

/// Read the header of an image file and make the image ready to be drawn.
///
/// `nil_pointer` tells if the image was given by a zero pointer, which
/// only changes the error for a too small image.
pub fn parse_image<'a>(nil_pointer: bool, bytes: &'a [u8], sub: Option<Rect>, has_canvas: bool) -> (res: Result<ParsedImage<'a>, ImageError>)
    requires
        bytes@.len() <= u32::MAX,
    ensures
        match res {
            Err(e) => image_error(nil_pointer, bytes@, has_canvas) == Some(e),
            Ok(img) => {
                &&& image_error(nil_pointer, bytes@, has_canvas) is None
                &&& img.bytes@ == bytes@.subrange(pixels_start(bytes@), bytes@.len() as int)
                &&& img.width == header_width(bytes@)
                &&& img.transp == bytes@[4]
                &&& img.sub == sub
            },
        },
{
    let len = bytes.len();
    if len < 7 {
        if nil_pointer {
            return Err(ImageError::NilPointer);
        } else if len == 0 {
            return Err(ImageError::Empty);
        } else {
            return Err(ImageError::TooSmall);
        }
    }
    let bpp = bytes[1];
    let width = bytes[2] as u32 + 256 * (bytes[3] as u32);
    if width == 0 {
        return Err(ImageError::ZeroWidth);
    }
    let transp = bytes[4];
    let swaps: usize = if bpp == 1 {
        1
    } else if bpp == 2 {
        2
    } else if bpp == 4 {
        8
    } else {
        return Err(ImageError::InvalidBpp);
    };
    if len < 5 + swaps {
        return Err(ImageError::HeaderTooSmall);
    }
    let ppb: usize = if bpp == 1 {
        8
    } else if bpp == 2 {
        4
    } else {
        2
    };
    if (((len - 5 - swaps) as u64) * (ppb as u64)) % (width as u64) != 0 {
        return Err(ImageError::InvalidWidth);
    }
    if has_canvas {
        return Err(ImageError::OnCanvas);
    }
    let pixels = vstd::slice::slice_subrange(bytes, 5 + swaps, len);
    Ok(ParsedImage { bytes: pixels, width, transp, sub })
}

/// The image file can be drawn at the given point without overflows and
/// without reads or writes out of bounds (or it is refused before drawing).
pub open spec fn draw_image_ok(nil_pointer: bool, b: Seq<u8>, sub: Option<Rect>, has_canvas: bool, x: int, y: int) -> bool {
    &&& b.len() <= u32::MAX
    &&& (image_error(nil_pointer, b, has_canvas) is None ==> render_ok(
        b.subrange(pixels_start(b), b.len() as int),
        header_width(b),
        b[4],
        sub,
        x,
        y,
    ))
}

/// True if the image file can be drawn at the given point, see [`draw_image_ok`].
pub fn draw_image_allowed(nil_pointer: bool, bytes: &[u8], x: i32, y: i32, sub: Option<Rect>, has_canvas: bool) -> (res: bool)
    ensures
        res == draw_image_ok(nil_pointer, bytes@, sub, has_canvas, x as int, y as int),
{
    if bytes.len() > u32::MAX as usize {
        return false;
    }
    match parse_image(nil_pointer, bytes, sub, has_canvas) {
        Err(_) => true,
        Ok(image) => image.render_allowed(x, y),
    }
}

/// Draw an image file (or its part given by `sub`) with its top-left corner at the given point.
///
/// The frame buffer is left as it is if the image file is refused.
pub fn draw_image(frame: &mut FrameBuffer, nil_pointer: bool, bytes: &[u8], x: i32, y: i32, sub: Option<Rect>, has_canvas: bool) -> (res: Result<(), ImageError>)
    requires
        old(frame).wf(),
        draw_image_ok(nil_pointer, bytes@, sub, has_canvas, x as int, y as int),
    ensures
        final(frame).wf(),
        final(frame).palette == old(frame).palette,
        match image_error(nil_pointer, bytes@, has_canvas) {
            Some(e) => res == Err::<(), ImageError>(e) && *final(frame) == *old(frame),
            None => {
                let img = bytes@.subrange(pixels_start(bytes@), bytes@.len() as int);
                &&& res is Ok
                &&& final(frame).dirty == (old(frame).dirty || render_draws(img, header_width(bytes@), sub, x as int, y as int))
                &&& final(frame).view_pixels() == render_result(
                    old(frame).view_pixels(),
                    img,
                    header_width(bytes@),
                    bytes@[4],
                    sub,
                    x as int,
                    y as int,
                )
            },
        },
{
    match parse_image(nil_pointer, bytes, sub, has_canvas) {
        Err(e) => Err(e),
        Ok(image) => {
            image.render(x, y, frame);
            Ok(())
        },
    }
}

/// The palette index for a color given by the app: colors are numbered from 1,
/// and 0 means no color. Only the low 4 bits of the index count.
pub open spec fn spec_color(c: int) -> u8 {
    (((c as u8) - 1) as u8) & 15u8
}

/// A color given by an app, which is not 0, must not become 0 as a byte.
pub open spec fn color_ok(c: int) -> bool {
    c == 0 || (c as u8) != 0
}

/// The palette index of a color given by the app, or None for 0 (no color).
pub fn parse_color(c: i32) -> (res: Option<u8>)
    requires
        color_ok(c as int),
    ensures
        c == 0 ==> res is None,
        c != 0 ==> res == Some(spec_color(c as int)),
        res matches Some(v) ==> v < 16,
{
    if c == 0 {
        None
    } else {
        let v = (c as u8) - 1;
        assert((v & 15u8) < 16) by (bit_vector);
        Some(v & 15u8)
    }
}

/// How a shape is drawn: its fill color, its stroke color, and the stroke width.
#[derive(Debug, Clone, Copy, PartialEq, Eq, Structural)]
pub struct ShapeStyle {
    pub fill_color: Option<u8>,
    pub stroke_color: Option<u8>,
    pub stroke_width: u32,
}

/// The style of a shape: a fill color unless it is 0, and a stroke unless its
/// color or its width is 0.
pub fn get_shape_style(fill_color: u32, stroke_color: u32, stroke_width: u32) -> (res: ShapeStyle)
    requires
        color_ok(fill_color as int),
        color_ok(stroke_color as int),
    ensures
        res.fill_color == (if fill_color != 0 { Some(spec_color(fill_color as int)) } else { None::<u8> }),
        res.stroke_color == (if stroke_color != 0 && stroke_width != 0 {
            Some(spec_color(stroke_color as int))
        } else {
            None::<u8>
        }),
        res.stroke_width == (if stroke_color != 0 && stroke_width != 0 { stroke_width } else { 0 }),
{
    let mut style = ShapeStyle { fill_color: None, stroke_color: None, stroke_width: 0 };
    if fill_color != 0 {
        let v = (fill_color as u8) - 1;
        style.fill_color = Some(v & 15u8);
    }
    if stroke_color != 0 && stroke_width != 0 {
        let v = (stroke_color as u8) - 1;
        style.stroke_color = Some(v & 15u8);
        style.stroke_width = stroke_width;
    }
    style
}

/// The header of a font file.
#[derive(Debug, Clone, Copy, PartialEq, Eq, Structural)]
pub struct FontHeader {
    /// The character set: 0 is ASCII, 1 to 13 are ISO 8859 variants and JIS X 0201.
    pub encoding: u8,
    pub char_width: u32,
    pub char_height: u32,
    pub baseline: u32,
    /// The width of the glyph image; the image starts at byte 7.
    pub image_width: u32,
}

/// The header of a font file, or the message telling why it is refused: a font
/// needs at least 10 bytes and an encoding up to 13.
pub open spec fn spec_font_header(b: Seq<u8>) -> Result<FontHeader, Seq<char>> {
    if b.len() == 0 {
        Err("font is empty: make sure you load it with a correct name"@)
    } else if b.len() < 10 {
        Err("font is too short"@)
    } else if b[1] > 13 {
        Err("unknown mapping"@)
    } else {
        Ok(
            FontHeader {
                encoding: b[1],
                char_width: b[2] as u32,
                char_height: b[3] as u32,
                baseline: b[4] as u32,
                image_width: (b[5] + 256 * b[6]) as u32,
            },
        )
    }
}

/// Read the header of a font file: a marker byte, the encoding, the character
/// width and height, the baseline, and the glyph image width (16 bits, little-endian).
pub fn parse_font(bytes: &[u8]) -> (res: Result<FontHeader, &'static str>)
    ensures
        bytes@.len() == 0 ==> (res matches Err(m) && m@ == "font is empty: make sure you load it with a correct name"@),
        0 < bytes@.len() < 10 ==> (res matches Err(m) && m@ == "font is too short"@),
        bytes@.len() >= 10 && bytes@[1] > 13 ==> (res matches Err(m) && m@ == "unknown mapping"@),
        bytes@.len() >= 10 && bytes@[1] <= 13 ==> res == Ok::<FontHeader, &'static str>(FontHeader {
            encoding: bytes@[1],
            char_width: bytes@[2] as u32,
            char_height: bytes@[3] as u32,
            baseline: bytes@[4] as u32,
            image_width: (bytes@[5] + 256 * bytes@[6]) as u32,
        }),
{
    if bytes.len() < 10 {
        let msg = if bytes.len() == 0 {
            "font is empty: make sure you load it with a correct name"
        } else {
            "font is too short"
        };
        return Err(msg);
    }
    let encoding = bytes[1];
    if encoding > 13 {
        return Err("unknown mapping");
    }
    Ok(FontHeader {
        encoding,
        char_width: bytes[2] as u32,
        char_height: bytes[3] as u32,
        baseline: bytes[4] as u32,
        image_width: bytes[5] as u32 + 256 * (bytes[6] as u32),
    })
}

/// Why an image cannot become the canvas.
#[derive(Debug, Clone, Copy, PartialEq, Eq, Structural)]
pub enum CanvasError {
    TooSmall,
    NotFourBpp,
    InvalidWidth,
}

impl CanvasError {
    /// The message logged for the error.
    pub fn message(&self) -> (res: &'static str)
        ensures
            res == match *self {
                CanvasError::TooSmall => "canvas is too small",
                CanvasError::NotFourBpp => "canvas must have 4 BPP",
                CanvasError::InvalidWidth => "the image has invalid width",
            },
    {
        match self {
            CanvasError::TooSmall => "canvas is too small",
            CanvasError::NotFourBpp => "canvas must have 4 BPP",
            CanvasError::InvalidWidth => "the image has invalid width",
        }
    }
}

/// The size of the canvas image header: 5 bytes and 8 bytes of palette swaps.
pub const CANVAS_HEADER: usize = 13;

/// The image header gives a width when the image could be a canvas.
pub open spec fn canvas_ok(b: Seq<u8>) -> bool {
    b.len() > 13 && b[1] == 4 ==> header_width(b) != 0
}

/// Check an image that the app wants to use as the canvas: more than the header,
/// 4 bits per pixel, and whole lines of pixels. Returns the width.
pub fn check_canvas(bytes: &[u8]) -> (res: Result<u32, CanvasError>)
    requires
        canvas_ok(bytes@),
        bytes@.len() <= u32::MAX,
    ensures
        bytes@.len() <= 13 ==> res == Err::<u32, CanvasError>(CanvasError::TooSmall),
        bytes@.len() > 13 && bytes@[1] != 4 ==> res == Err::<u32, CanvasError>(CanvasError::NotFourBpp),
        bytes@.len() > 13 && bytes@[1] == 4 ==> res == (if ((bytes@.len() - 13) * 2) % header_width(bytes@) != 0 {
            Err::<u32, CanvasError>(CanvasError::InvalidWidth)
        } else {
            Ok::<u32, CanvasError>(header_width(bytes@) as u32)
        }),
{
    if bytes.len() <= CANVAS_HEADER {
        return Err(CanvasError::TooSmall);
    }
    if bytes[1] != 4 {
        return Err(CanvasError::NotFourBpp);
    }
    let width = bytes[2] as u32 + 256 * (bytes[3] as u32);
    if (((bytes.len() - CANVAS_HEADER) as u64) * 2) % (width as u64) != 0 {
        return Err(CanvasError::InvalidWidth);
    }
    Ok(width)
}

/// Why a text cannot be drawn.
#[derive(Debug, Clone, Copy)]
pub enum TextError {
    /// The text or the font lies outside of the app memory.
    OomPointer,
    /// The font pointer is 0.
    NilFont,
    /// The font file is refused; the message tells why.
    Font(&'static str),
    /// The color is 0.
    NoneColor,
    /// The text is not UTF-8.
    NotUtf8,
}

/// What drawing a text needs, read from the app memory.
pub struct TextArgs<'a> {
    pub text: &'a str,
    pub font: &'a [u8],
    pub header: FontHeader,
    pub color: u8,
}

/// The checks of `draw_text`, in order: the text must lie in the memory, the font
/// pointer must not be 0, the font must lie in the memory and have a valid header,
/// the color must not be 0, and the text must be UTF-8.
pub fn draw_text_args<'a>(
    data: &'a [u8],
    text_ptr: u32,
    text_len: u32,
    font_ptr: u32,
    font_len: u32,
    color: i32,
) -> (res: Result<TextArgs<'a>, TextError>)
    requires
        color_ok(color as int),
    ensures
        ({
            let mem = data@;
            let tb = mem.subrange(text_ptr as int, text_ptr + text_len);
            let fb = mem.subrange(font_ptr as int, font_ptr + font_len);
            if text_ptr + text_len > mem.len() {
                res matches Err(TextError::OomPointer)
            } else if font_ptr == 0 {
                res matches Err(TextError::NilFont)
            } else if font_ptr + font_len > mem.len() {
                res matches Err(TextError::OomPointer)
            } else if spec_font_header(fb) is Err {
                res matches Err(TextError::Font(m)) && spec_font_header(fb) == Err::<FontHeader, Seq<char>>(m@)
            } else if color == 0 {
                res matches Err(TextError::NoneColor)
            } else if !vstd::utf8::valid_utf8(tb) {
                res matches Err(TextError::NotUtf8)
            } else {
                res matches Ok(a) && a.text.spec_bytes() == tb && a.font@ == fb && spec_font_header(fb)
                    == Ok::<FontHeader, Seq<char>>(a.header) && a.color == spec_color(color as int)
            }
        }),
{
    let len = data.len();
    let tp = text_ptr as usize;
    let tl = text_len as usize;
    if tp > len || tl > len - tp {
        return Err(TextError::OomPointer);
    }
    if font_ptr == 0 {
        return Err(TextError::NilFont);
    }
    let fp = font_ptr as usize;
    let fl = font_len as usize;
    if fp > len || fl > len - fp {
        return Err(TextError::OomPointer);
    }
    let text_bytes = vstd::slice::slice_subrange(data, tp, tp + tl);
    let font = vstd::slice::slice_subrange(data, fp, fp + fl);
    let header = match parse_font(font) {
        Ok(h) => h,
        Err(m) => return Err(TextError::Font(m)),
    };
    let color = match parse_color(color) {
        Some(c) => c,
        None => return Err(TextError::NoneColor),
    };
    match str_from_utf8(text_bytes) {
        None => Err(TextError::NotUtf8),
        Some(text) => Ok(TextArgs { text, font, header, color }),
    }
}

impl TextError {
    /// The message logged for the error.
    pub fn message(&self) -> (res: &'static str)
        ensures
            match *self {
                TextError::OomPointer => res == "buffer points out of memory",
                TextError::NilFont => res == "font is a nil pointer: make sure you've loaded it",
                TextError::Font(m) => res == m,
                TextError::NoneColor => res == "color is None (0)",
                TextError::NotUtf8 => res == "the given text is not valid UTF-8",
            },
    {
        match self {
            TextError::OomPointer => "buffer points out of memory",
            TextError::NilFont => "font is a nil pointer: make sure you've loaded it",
            TextError::Font(m) => m,
            TextError::NoneColor => "color is None (0)",
            TextError::NotUtf8 => "the given text is not valid UTF-8",
        }
    }
}

} // verus!
