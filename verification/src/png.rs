use vstd::prelude::*;
use crate::frame_buffer::{rotate4, swap_nibbles};

verus! {

#[verifier::external_type_specification]
#[verifier::external_body]
pub struct ExCrcHasher(crc32fast::Hasher);

/// The bytes given so far to a CRC-32 hasher.
pub uninterp spec fn crc_input(h: crc32fast::Hasher) -> Seq<u8>;

/// The CRC-32 (IEEE) checksum of the bytes.
pub uninterp spec fn crc32_of(data: Seq<u8>) -> u32;

/// The ZLIB stream (header, deflate blocks, trailer) that libflate's encoder with
/// default options produces when it is given the bytes in one write.
pub uninterp spec fn zlib_of(data: Seq<u8>) -> Seq<u8>;

/// `crc32fast::Hasher::new`: a hasher that has seen no bytes.
#[verifier::external_body]
fn crc_new() -> (res: crc32fast::Hasher)
    ensures
        crc_input(res) == Seq::<u8>::empty(),
{
    crc32fast::Hasher::new()
}

/// `crc32fast::Hasher::update`: the hasher has seen the bytes too.
#[verifier::external_body]
fn crc_update(h: &mut crc32fast::Hasher, data: &[u8])
    ensures
        crc_input(*final(h)) == crc_input(*old(h)) + data@,
{
    h.update(data)
}

/// `crc32fast::Hasher::finalize`: the checksum of all bytes the hasher has seen.
#[verifier::external_body]
fn crc_finalize(h: crc32fast::Hasher) -> (res: u32)
    ensures
        res == crc32_of(crc_input(h)),
{
    h.finalize()
}

/// `libflate::zlib::Encoder::new` over a vector, one `write_all` of the bytes,
/// and `finish`: the ZLIB stream of the bytes. The encoder's errors come only
/// from writes into its inner writer, here a vector, which grows as needed.
#[verifier::external_body]
fn zlib_compress(data: &[u8]) -> (res: Vec<u8>)
    ensures
        res@ == zlib_of(data@),
{
    let mut enc = libflate::zlib::Encoder::new(Vec::new()).expect("writing into a vector");
    std::io::Write::write_all(&mut enc, data).expect("writing into a vector");
    enc.finish().into_result().expect("writing into a vector")
}

/// A color as 8-bit red, green, and blue.
#[derive(Debug, Clone, Copy, PartialEq, Eq, Structural)]
pub struct Rgb888 {
    pub r: u8,
    pub g: u8,
    pub b: u8,
}

/// A number as 4 big-endian bytes.
pub open spec fn be_bytes(v: u32) -> Seq<u8> {
    seq![(v >> 24u32) as u8, ((v >> 16u32) & 0xff) as u8, ((v >> 8u32) & 0xff) as u8, (v & 0xff) as u8]
}

fn to_be_bytes(v: u32) -> (res: [u8; 4])
    ensures
        res@ == be_bytes(v),
{
    [(v >> 24u32) as u8, ((v >> 16u32) & 0xff) as u8, ((v >> 8u32) & 0xff) as u8, (v & 0xff) as u8]
}

/// A PNG chunk: the data length (big-endian, modulo 2^32), the name, the data, and the CRC-32
/// of the name and the data (big-endian).
pub open spec fn chunk(name: Seq<u8>, data: Seq<u8>) -> Seq<u8> {
    be_bytes(data.len() as u32) + name + data + be_bytes(crc32_of(name + data))
}

fn append(out: &mut Vec<u8>, data: &[u8])
    ensures
        final(out)@ == old(out)@ + data@,
{
    let n = data.len();
    let mut i: usize = 0;
    let ghost start = out@;
    while i < n
        invariant
            n == data@.len(),
            0 <= i <= n,
            out@ == start + data@.subrange(0, i as int),
        decreases n - i,
    {
        out.push(data[i]);
        i = i + 1;
        assert(out@ =~= start + data@.subrange(0, i as int));
    }
    assert(data@.subrange(0, n as int) =~= data@);
}

/// Write a PNG chunk, see [`chunk`].
pub fn write_chunk(out: &mut Vec<u8>, name: &[u8; 4], data: &[u8])
    ensures
        final(out)@ == old(out)@ + chunk(name@, data@),
{
    let ghost start = out@;
    let len = to_be_bytes(data.len() as u32);
    append(out, &len);
    append(out, name);
    append(out, data);
    let mut crc = crc_new();
    crc_update(&mut crc, name);
    crc_update(&mut crc, data);
    let sum = to_be_bytes(crc_finalize(crc));
    append(out, &sum);
    assert(Seq::<u8>::empty() + name@ + data@ =~= name@ + data@);
    assert(out@ =~= start + chunk(name@, data@));
}

/// The bytes with the two pixels of each byte swapped.
pub open spec fn swapped(frame: Seq<u8>) -> Seq<u8> {
    Seq::new(frame.len(), |i: int| rotate4(frame[i]))
}

/// Each byte in the frame buffer contains 2 pixels. Swap these 2 pixels.
pub fn swap_pairs(frame: &[u8]) -> (res: Vec<u8>)
    ensures
        res@ == swapped(frame@),
{
    let n = frame.len();
    let mut out: Vec<u8> = Vec::new();
    let mut i: usize = 0;
    while i < n
        invariant
            n == frame@.len(),
            0 <= i <= n,
            out@ == swapped(frame@).subrange(0, i as int),
        decreases n - i,
    {
        let b = frame[i];
        let s = swap_nibbles(b);
        out.push(s);
        i = i + 1;
        assert(out@ =~= swapped(frame@).subrange(0, i as int));
    }
    assert(swapped(frame@).subrange(0, n as int) =~= swapped(frame@));
    out
}

/// The raw image data: each line of 120 bytes (240 pixels) of the frame buffer,
/// with its pixel pairs swapped, after a zero byte (the "no filter" filter type).
/// The last line may be shorter.
pub open spec fn scanlines(frame: Seq<u8>) -> Seq<u8>
    decreases frame.len(),
{
    if frame.len() == 0 {
        Seq::empty()
    } else if frame.len() <= 120 {
        seq![0u8] + swapped(frame)
    } else {
        seq![0u8] + swapped(frame.subrange(0, 120)) + scanlines(frame.subrange(120, frame.len() as int))
    }
}

/// Collect the raw image data, see [`scanlines`].
fn collect_scanlines(frame: &[u8]) -> (res: Vec<u8>)
    ensures
        res@ == scanlines(frame@),
{
    let n = frame.len();
    let mut out: Vec<u8> = Vec::new();
    let mut start: usize = 0;
    assert(frame@.subrange(0, n as int) =~= frame@);
    assert(Seq::<u8>::empty() + scanlines(frame@) =~= scanlines(frame@));
    while start < n
        invariant
            n == frame@.len(),
            0 <= start <= n,
            out@ + scanlines(frame@.subrange(start as int, n as int)) == scanlines(frame@),
        decreases n - start,
    {
        let end = if n - start > 120 { start + 120 } else { n };
        let line = vstd::slice::slice_subrange(frame, start, end);
        let swapped_line = swap_pairs(line);
        let ghost before = out@;
        out.push(0);
        append(&mut out, swapped_line.as_slice());
        proof {
            let rest = frame@.subrange(start as int, n as int);
            if rest.len() <= 120 {
                assert(rest.subrange(0, rest.len() as int) =~= rest);
                assert(line@ =~= rest);
                assert(frame@.subrange(end as int, n as int) =~= Seq::<u8>::empty());
                assert(scanlines(frame@.subrange(end as int, n as int)) =~= Seq::<u8>::empty());
            } else {
                assert(line@ =~= rest.subrange(0, 120));
                assert(rest.subrange(120, rest.len() as int) =~= frame@.subrange(end as int, n as int));
            }
            assert(out@ =~= before + (seq![0u8] + swapped(line@)));
        }
        start = end;
    }
    assert(frame@.subrange(n as int, n as int) =~= Seq::<u8>::empty());
    assert(out@ + Seq::<u8>::empty() =~= out@);
    out
}

/// The PNG signature.
pub open spec fn png_signature() -> Seq<u8> {
    seq![137u8, 80, 78, 71, 13, 10, 26, 10]
}

/// The IHDR data: 240 by 160 pixels, 4 bits per pixel, indexed colors.
pub open spec fn ihdr() -> Seq<u8> {
    be_bytes(240) + be_bytes(160) + seq![4u8, 3, 0, 0, 0]
}

/// The palette as RGB bytes.
pub open spec fn palette_bytes(palette: Seq<Rgb888>) -> Seq<u8> {
    Seq::new(48, |i: int| {
        let c = palette[i / 3];
        if i % 3 == 0 { c.r } else if i % 3 == 1 { c.g } else { c.b }
    })
}

/// The PNG file of the screen: signature, IHDR, PLTE, IDAT with the compressed
/// scanlines, and IEND.
pub open spec fn png_file(palette: Seq<Rgb888>, frame: Seq<u8>) -> Seq<u8> {
    png_signature() + chunk(seq![73u8, 72, 68, 82], ihdr()) + chunk(seq![80u8, 76, 84, 69], palette_bytes(palette))
        + chunk(seq![73u8, 68, 65, 84], zlib_of(scanlines(frame))) + chunk(seq![73u8, 69, 78, 68], Seq::empty())
}

/// Serialize the palette as continuous RGB bytes.
fn encode_palette(palette: &[Rgb888; 16]) -> (res: Vec<u8>)
    ensures
        res@ == palette_bytes(palette@),
{
    let mut out: Vec<u8> = Vec::new();
    let mut i: usize = 0;
    while i < 16
        invariant
            0 <= i <= 16,
            out@ == palette_bytes(palette@).subrange(0, 3 * i),
        decreases 16 - i,
    {
        let c = palette[i];
        out.push(c.r);
        out.push(c.g);
        out.push(c.b);
        i = i + 1;
        assert(out@ =~= palette_bytes(palette@).subrange(0, 3 * i));
    }
    assert(palette_bytes(palette@).subrange(0, 48) =~= palette_bytes(palette@));
    out
}

/// Encode the frame buffer as a PNG file.
pub fn save_png(palette: &[Rgb888; 16], frame: &[u8]) -> (res: Vec<u8>)
    requires
        frame@.len() <= 0x1000_0000,
    ensures
        res@ == png_file(palette@, frame@),
{
    let mut out: Vec<u8> = Vec::new();
    append(&mut out, &[137, 80, 78, 71, 13, 10, 26, 10]);
    let w = to_be_bytes(240);
    let h = to_be_bytes(160);
    let mut ihdr_data: Vec<u8> = Vec::new();
    append(&mut ihdr_data, &w);
    append(&mut ihdr_data, &h);
    append(&mut ihdr_data, &[4, 3, 0, 0, 0]);
    write_chunk(&mut out, &[73, 72, 68, 82], ihdr_data.as_slice());
    let pal = encode_palette(palette);
    write_chunk(&mut out, &[80, 76, 84, 69], pal.as_slice());
    let data = collect_scanlines(frame);
    let compressed = zlib_compress(data.as_slice());
    write_chunk(&mut out, &[73, 68, 65, 84], compressed.as_slice());
    write_chunk(&mut out, &[73, 69, 78, 68], &[]);
    out
}

/// A growable byte buffer the compressor writes into.
pub struct Buffer {
    pub buf: Vec<u8>,
}

impl Buffer {
    pub fn new() -> (res: Self)
        ensures
            res.buf@ == Seq::<u8>::empty(),
    {
        Buffer { buf: Vec::new() }
    }

    /// Append the bytes; all of them are always written.
    pub fn write(&mut self, buf: &[u8]) -> (res: usize)
        ensures
            final(self).buf@ == old(self).buf@ + buf@,
            res == buf@.len(),
    {
        append(&mut self.buf, buf);
        buf.len()
    }
}

} // verus!
