use vstd::prelude::*;

verus! {

/// Color optimized for fast rendering on the device: RGB565 (red in the low bits),
/// stored as two little-endian bytes with all bits inverted.
#[derive(Debug, Clone, Copy, PartialEq, Eq, Structural)]
pub struct Rgb16(pub u8, pub u8);

/// The RGB565 word for 8-bit color components: 5 bits of red in the low bits,
/// 6 bits of green in the middle, 5 bits of blue in the high bits.
pub open spec fn rgb565_word(r: u16, g: u16, b: u16) -> u16 {
    ((((b >> 3u16) << 11u16) | (((g >> 2u16) & 0x3fu16) << 5u16)) | ((r >> 3u16) & 0x1fu16)) as u16
}

/// The color packed from the given 8-bit components.
pub open spec fn spec_from_rgb(r: u16, g: u16, b: u16) -> Rgb16 {
    let raw = rgb565_word(r, g, b);
    Rgb16(!((raw & 0xffu16) as u8), !((raw >> 8u16) as u8))
}

/// The RGB565 word stored in the color.
pub open spec fn word_of(c: Rgb16) -> u16 {
    (((!c.1) as u16) << 8u16 | ((!c.0) as u16)) as u16
}

/// The 8-bit components of the color: each component is shifted to the top bits
/// of the byte and the bits below are zero.
pub open spec fn spec_into_rgb(c: Rgb16) -> (u8, u8, u8) {
    let raw = word_of(c);
    (((raw & 0x1fu16) << 3u16) as u8, (((raw >> 5u16) & 0x3fu16) << 2u16) as u8, ((raw >> 11u16) << 3u16) as u8)
}

impl Rgb16 {
    pub fn from_rgb(r: u16, g: u16, b: u16) -> (res: Self)
        ensures
            res == spec_from_rgb(r, g, b),
    {
        let r = r >> 3u16;
        let g = g >> 2u16;
        let b = b >> 3u16;
        let raw: u16 = ((b << 11u16) | ((g & 0x3fu16) << 5u16)) | (r & 0x1fu16);
        let lo = (raw & 0xffu16) as u8;
        let hi = (raw >> 8u16) as u8;
        Self(!lo, !hi)
    }

    pub fn into_rgb(self) -> (res: (u8, u8, u8))
        ensures
            res == spec_into_rgb(self),
    {
        let raw: u16 = ((!self.1) as u16) << 8u16 | ((!self.0) as u16);
        let r = ((raw & 0x1fu16) << 3u16) as u8;
        let g = (((raw >> 5u16) & 0x3fu16) << 2u16) as u8;
        let b = ((raw >> 11u16) << 3u16) as u8;
        (r, g, b)
    }

    pub fn r(&self) -> (res: u8)
        ensures
            res == spec_into_rgb(*self).0,
    {
        let (r, _, _) = self.into_rgb();
        r
    }

    pub fn g(&self) -> (res: u8)
        ensures
            res == spec_into_rgb(*self).1,
    {
        let (_, g, _) = self.into_rgb();
        g
    }

    pub fn b(&self) -> (res: u8)
        ensures
            res == spec_into_rgb(*self).2,
    {
        let (_, _, b) = self.into_rgb();
        b
    }

    /// Convert an RGB888 color (given by its components) into the device color.
    pub fn from_rgb888(r: u8, g: u8, b: u8) -> (res: Self)
        ensures
            res == spec_from_rgb(r as u16, g as u16, b as u16),
    {
        Self::from_rgb(r as u16, g as u16, b as u16)
    }

    /// Convert into RGB888 components. A component that has all its bits set
    /// becomes full-intensity 0xFF, so that white stays white.
    pub fn into_rgb888(self) -> (res: (u8, u8, u8))
        ensures
            ({
                let (r, g, b) = spec_into_rgb(self);
                res == (
                    if r == 0xf8 { 0xffu8 } else { r },
                    if g == 0xfc { 0xffu8 } else { g },
                    if b == 0xf8 { 0xffu8 } else { b },
                )
            }),
    {
        let (mut r, mut g, mut b) = self.into_rgb();
        if r == 0xf8 {
            r = 0xff;
        }
        if g == 0xfc {
            g = 0xff;
        }
        if b == 0xf8 {
            b = 0xff;
        }
        (r, g, b)
    }
}

/// Converting 8-bit components into the device color and back keeps the top
/// 5 bits of red and blue and the top 6 bits of green.
pub proof fn law_rgb_round_trip(r: u8, g: u8, b: u8)
    ensures
        spec_into_rgb(spec_from_rgb(r as u16, g as u16, b as u16)) == (r & 0xf8u8, g & 0xfcu8, b & 0xf8u8),
{
    let r16 = r as u16;
    let g16 = g as u16;
    let b16 = b as u16;
    let raw = rgb565_word(r16, g16, b16);
    let c = spec_from_rgb(r16, g16, b16);
    assert(word_of(c) == raw) by {
        let lo = (raw & 0xffu16) as u8;
        let hi = (raw >> 8u16) as u8;
        assert((((!(!hi)) as u16) << 8u16 | ((!(!lo)) as u16)) as u16 == raw) by (bit_vector)
            requires
                lo == (raw & 0xffu16) as u8,
                hi == (raw >> 8u16) as u8,
        ;
    }
    assert(((raw & 0x1fu16) << 3u16) as u8 == r & 0xf8u8 && (((raw >> 5u16) & 0x3fu16) << 2u16) as u8 == g
        & 0xfcu8 && ((raw >> 11u16) << 3u16) as u8 == b & 0xf8u8) by (bit_vector)
        requires
            raw == ((((b16 >> 3u16) << 11u16) | (((g16 >> 2u16) & 0x3fu16) << 5u16)) | ((r16 >> 3u16)
                & 0x1fu16)) as u16,
            r16 == r as u16,
            g16 == g as u16,
            b16 == b as u16,
    ;
}

/// The 16-color default palette (Sweetie 16).
pub open spec fn default_palette_seq() -> Seq<Rgb16> {
    seq![
            spec_from_rgb(0x1a, 0x1c, 0x2c),
            spec_from_rgb(0x5d, 0x27, 0x5d),
            spec_from_rgb(0xb1, 0x3e, 0x53),
            spec_from_rgb(0xef, 0x7d, 0x57),
            spec_from_rgb(0xff, 0xcd, 0x75),
            spec_from_rgb(0xa7, 0xf0, 0x70),
            spec_from_rgb(0x38, 0xb7, 0x64),
            spec_from_rgb(0x25, 0x71, 0x79),
            spec_from_rgb(0x29, 0x36, 0x6f),
            spec_from_rgb(0x3b, 0x5d, 0xc9),
            spec_from_rgb(0x41, 0xa6, 0xf6),
            spec_from_rgb(0x73, 0xef, 0xf7),
            spec_from_rgb(0xf4, 0xf4, 0xf4),
            spec_from_rgb(0x94, 0xb0, 0xc2),
            spec_from_rgb(0x56, 0x6c, 0x86),
            spec_from_rgb(0x33, 0x3c, 0x57),
        ]
}

/// The 16-color default palette (Sweetie 16).
pub fn default_palette() -> (res: [Rgb16; 16])
    ensures
        res@ == default_palette_seq(),
{
    [
        Rgb16::from_rgb(0x1a, 0x1c, 0x2c),  // #1a1c2c, black
        Rgb16::from_rgb(0x5d, 0x27, 0x5d),  // #5d275d, purple
        Rgb16::from_rgb(0xb1, 0x3e, 0x53),  // #b13e53, red
        Rgb16::from_rgb(0xef, 0x7d, 0x57),  // #ef7d57, orange
        Rgb16::from_rgb(0xff, 0xcd, 0x75),  // #ffcd75, yellow
        Rgb16::from_rgb(0xa7, 0xf0, 0x70),  // #a7f070, light green
        Rgb16::from_rgb(0x38, 0xb7, 0x64),  // #38b764, green
        Rgb16::from_rgb(0x25, 0x71, 0x79),  // #257179, dark green
        Rgb16::from_rgb(0x29, 0x36, 0x6f),  // #29366f, dark blue
        Rgb16::from_rgb(0x3b, 0x5d, 0xc9),  // #3b5dc9, blue
        Rgb16::from_rgb(0x41, 0xa6, 0xf6),  // #41a6f6, light blue
        Rgb16::from_rgb(0x73, 0xef, 0xf7),  // #73eff7, cyan
        Rgb16::from_rgb(0xf4, 0xf4, 0xf4),  // #f4f4f4, white
        Rgb16::from_rgb(0x94, 0xb0, 0xc2),  // #94b0c2, light gray
        Rgb16::from_rgb(0x56, 0x6c, 0x86),  // #566c86, gray
        Rgb16::from_rgb(0x33, 0x3c, 0x57),  // #333c57, dark gray
    ]
}

/// Scale an 8-bit color component to the given maximum (`max` of 255).
pub open spec fn scale_component(v: u8, max: u32) -> u32 {
    (v as u32 * max / 255) as u32
}

/// Convert RGB888 components into RGB565 components (5, 6 and 5 bits).
pub fn new_rgb565(r: u8, g: u8, b: u8) -> (res: (u8, u8, u8))
    ensures
        res.0 as u32 == scale_component(r, 31),
        res.1 as u32 == scale_component(g, 63),
        res.2 as u32 == scale_component(b, 31),
        res.0 < 32 && res.1 < 64 && res.2 < 32,
{
    let r = r as u32 * 31 / 255;
    let g = g as u32 * 63 / 255;
    let b = b as u32 * 31 / 255;
    (r as u8, g as u8, b as u8)
}

} // verus!
