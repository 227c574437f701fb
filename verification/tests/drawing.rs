use firefly_runtime::canvas::{canvas_set_pixel, Canvas};
use firefly_runtime::frame_buffer::FrameBuffer;
use firefly_runtime::image::ParsedImage;
use firefly_runtime::png::{save_png, Buffer, Rgb888};
use firefly_runtime::qr::{draw_qr, QrError};
use firefly_runtime::sudo::get_safe_subsclices;
use std::io::Read;

/// The palette index of the pixel at the given point.
fn pixel(frame: &FrameBuffer, x: usize, y: usize) -> u8 {
    let i = y * 240 + x;
    let byte = frame.data[i / 2];
    if i % 2 == 0 {
        byte & 0xf
    } else {
        byte >> 4
    }
}

#[test]
fn image_lands_in_place() {
    // 3 pixels wide, 2 lines: 1 2 3 / 4 5 6, with 5 transparent.
    let image = ParsedImage { bytes: &[0x12, 0x34, 0x56], width: 3, transp: 5, sub: None };
    let mut frame = FrameBuffer::new();
    image.render(10, 20, &mut frame);
    assert!(frame.dirty);
    let expected = [[1, 2, 3], [4, 0, 6]];
    for y in 18..24 {
        for x in 8..15 {
            let want = if (20..22).contains(&y) && (10..13).contains(&x) {
                expected[y - 20][x - 10]
            } else {
                0
            };
            assert_eq!(pixel(&frame, x, y), want, "pixel ({x}, {y})");
        }
    }
}

#[test]
fn image_on_last_screen_lines_lands_in_place() {
    // 4 pixels wide, 2 lines, no transparent color, ending on the last screen line.
    let image = ParsedImage { bytes: &[0x11, 0x11, 0x22, 0x22], width: 4, transp: 255, sub: None };
    for px in [0usize, 2, 4] {
        let mut frame = FrameBuffer::new();
        image.render(px as i32, 158, &mut frame);
        for x in px..px + 4 {
            assert_eq!(pixel(&frame, x, 158), 1);
            assert_eq!(pixel(&frame, x, 159), 2);
        }
    }
    // 2 by 2: 1 2 / 3 4 at (2, 158).
    let image = ParsedImage { bytes: &[0x12, 0x34], width: 2, transp: 16, sub: None };
    let mut frame = FrameBuffer::new();
    image.render(2, 158, &mut frame);
    assert_eq!(frame.data[18961], 0x21);
    assert_eq!(frame.data[19081], 0x43);
}

fn be32(b: &[u8]) -> usize {
    u32::from_be_bytes([b[0], b[1], b[2], b[3]]) as usize
}

#[test]
fn png_of_the_screen() {
    let mut palette = [Rgb888 { r: 0, g: 0, b: 0 }; 16];
    for (i, c) in palette.iter_mut().enumerate() {
        let i = i as u8;
        *c = Rgb888 { r: i, g: 2 * i, b: 3 * i };
    }
    let mut frame = vec![0u8; 19200];
    frame[0] = 0x21;
    let png = save_png(&palette, &frame);
    assert_eq!(&png[..8], &[137, 80, 78, 71, 13, 10, 26, 10]);
    // IHDR: 240x160, 4 bits per pixel, indexed colors.
    assert_eq!(
        &png[8..33],
        &[
            0, 0, 0, 13, b'I', b'H', b'D', b'R', 0, 0, 0, 240, 0, 0, 0, 160, 4, 3, 0, 0, 0, 0xc0,
            0xf5, 0xfc, 0x56
        ]
    );
    // PLTE: the 16 colors as RGB.
    assert_eq!(be32(&png[33..37]), 48);
    assert_eq!(&png[37..41], b"PLTE");
    assert_eq!(&png[41 + 3..41 + 6], &[1, 2, 3]);
    // IDAT: the compressed scanlines.
    let idat_len = be32(&png[93..97]);
    assert_eq!(&png[97..101], b"IDAT");
    let compressed = &png[101..101 + idat_len];
    let crc = crc32fast::hash(&png[97..101 + idat_len]);
    assert_eq!(be32(&png[101 + idat_len..105 + idat_len]), crc as usize);
    let mut decoder = libflate::zlib::Decoder::new(compressed).unwrap();
    let mut raw = Vec::new();
    decoder.read_to_end(&mut raw).unwrap();
    assert_eq!(raw.len(), 160 * 121);
    assert_eq!(&raw[..3], &[0, 0x12, 0]);
    assert!(raw.iter().enumerate().all(|(i, b)| i == 1 || *b == 0));
    // IEND closes the file.
    assert_eq!(
        &png[105 + idat_len..],
        &[0, 0, 0, 0, b'I', b'E', b'N', b'D', 0xae, 0x42, 0x60, 0x82]
    );
}

#[test]
fn png_buffer_appends() {
    let mut buf = Buffer::new();
    assert_eq!(buf.write(&[1, 2]), 2);
    assert_eq!(buf.write(&[3]), 1);
    assert_eq!(buf.buf, vec![1, 2, 3]);
}

#[test]
fn qr_code_modules() {
    let mut frame = FrameBuffer::new();
    // Dark modules get palette index 2, light ones index 1.
    draw_qr(&mut frame, b"hello", 5, 5, 3, 2).unwrap();
    assert!(frame.dirty);
    let mut dark = 0;
    let mut light = 0;
    for y in 5..35 {
        for x in 5..35 {
            match pixel(&frame, x, y) {
                2 => dark += 1,
                1 => light += 1,
                _ => {}
            }
        }
    }
    assert!(dark > 100);
    assert!(light > 100);
    // Nothing is drawn left of or above the code.
    assert_eq!(pixel(&frame, 4, 5), 0);
    assert_eq!(pixel(&frame, 5, 4), 0);
    // Without colors, nothing is drawn.
    let mut frame = FrameBuffer::new();
    draw_qr(&mut frame, b"hello", 5, 5, 0, 0).unwrap();
    assert!(frame.data.iter().all(|b| *b == 0));
}

#[test]
fn qr_code_too_long() {
    let mut frame = FrameBuffer::new();
    let data = vec![b'x'; 5000];
    assert_eq!(draw_qr(&mut frame, &data, 0, 0, 2, 1), Err(QrError::CannotConstruct));
    assert!(!frame.dirty);
    assert!(frame.data.iter().all(|b| *b == 0));
}

#[test]
fn canvas_pixels() {
    let canvas = Canvas::new(100, 8, 4);
    assert_eq!(canvas.end, 108);
    assert_eq!(canvas.height(), 4);
    let mut data = [0u8; 4];
    canvas_set_pixel(&mut data, 4, 2, 1, 0, 5);
    assert_eq!(data, [0x50, 0, 0, 0]);
    canvas_set_pixel(&mut data, 4, 2, 2, 1, 7);
    assert_eq!(data, [0x50, 0, 0, 0x07]);
    canvas_set_pixel(&mut data, 4, 2, 4, 0, 7);
    canvas_set_pixel(&mut data, 4, 2, -1, 0, 7);
    canvas_set_pixel(&mut data, 4, 2, 0, 2, 7);
    assert_eq!(data, [0x50, 0, 0, 0x07]);
}

#[test]
fn safe_subslices() {
    let mut data: Vec<u8> = (0..10).collect();
    {
        let (path, buf) = get_safe_subsclices(&mut data, 0, 3, 5, 4).unwrap();
        assert_eq!(path, &[0, 1, 2]);
        assert_eq!(buf, &[5, 6, 7, 8]);
        buf[0] = 42;
    }
    assert_eq!(data[5], 42);
    {
        let (path, buf) = get_safe_subsclices(&mut data, 6, 2, 1, 5).unwrap();
        assert_eq!(path, &[6, 7]);
        assert_eq!(buf, &[1, 2, 3, 4, 42]);
    }
    // Overlapping regions and regions out of the memory are refused.
    assert!(get_safe_subsclices(&mut data, 0, 6, 5, 2).is_none());
    assert!(get_safe_subsclices(&mut data, 0, 2, 5, 6).is_none());
    assert!(get_safe_subsclices(&mut data, 10, 0, 5, 1).is_none());
}

#[test]
fn image_below_the_bottom_lands_in_place() {
    // 2 pixels wide, 4 lines (1 2 / 3 4 / 5 6 / 7 8) at line 158: two lines show.
    let image = ParsedImage { bytes: &[0x12, 0x34, 0x56, 0x78], width: 2, transp: 16, sub: None };
    for px in [3usize, 4] {
        let mut frame = FrameBuffer::new();
        image.render(px as i32, 158, &mut frame);
        assert_eq!(pixel(&frame, px, 158), 1);
        assert_eq!(pixel(&frame, px + 1, 158), 2);
        assert_eq!(pixel(&frame, px, 159), 3);
        assert_eq!(pixel(&frame, px + 1, 159), 4);
        assert_eq!(pixel(&frame, px + 2, 158), 0);
    }
}

#[test]
fn image_above_the_top_lands_in_place() {
    // 2 pixels wide, 4 lines (1 2 / 3 4 / 5 6 / 7 8) at line -2: the last two lines show.
    let image = ParsedImage { bytes: &[0x12, 0x34, 0x56, 0x78], width: 2, transp: 16, sub: None };
    for px in [3usize, 4] {
        let mut frame = FrameBuffer::new();
        image.render(px as i32, -2, &mut frame);
        assert_eq!(pixel(&frame, px, 0), 5);
        assert_eq!(pixel(&frame, px + 1, 0), 6);
        assert_eq!(pixel(&frame, px, 1), 7);
        assert_eq!(pixel(&frame, px + 1, 1), 8);
        assert_eq!(pixel(&frame, px, 2), 0);
    }
}

#[test]
fn image_at_the_sides_lands_in_place() {
    // 4 pixels wide, 2 lines: 1 2 3 4 / 5 6 7 8.
    let image = ParsedImage { bytes: &[0x12, 0x34, 0x56, 0x78], width: 4, transp: 16, sub: None };
    let mut frame = FrameBuffer::new();
    image.render(-2, 10, &mut frame);
    assert_eq!([pixel(&frame, 0, 10), pixel(&frame, 1, 10), pixel(&frame, 2, 10)], [3, 4, 0]);
    assert_eq!([pixel(&frame, 0, 11), pixel(&frame, 1, 11), pixel(&frame, 2, 11)], [7, 8, 0]);
    let mut frame = FrameBuffer::new();
    image.render(-3, 10, &mut frame);
    assert_eq!([pixel(&frame, 0, 10), pixel(&frame, 1, 10)], [4, 0]);
    assert_eq!([pixel(&frame, 0, 11), pixel(&frame, 1, 11)], [8, 0]);
    for px in [236usize, 237, 238] {
        let mut frame = FrameBuffer::new();
        image.render(px as i32, 10, &mut frame);
        for c in 0..(240 - px) {
            assert_eq!(pixel(&frame, px + c, 10), 1 + c as u8);
            assert_eq!(pixel(&frame, px + c, 11), 5 + c as u8);
        }
        assert_eq!(pixel(&frame, px - 1, 10), 0);
        assert_eq!(pixel(&frame, 0, 11), 0);
    }
    // Right of the screen nothing is drawn.
    let mut frame = FrameBuffer::new();
    image.render(240, 10, &mut frame);
    assert!(frame.data.iter().all(|b| *b == 0));
}
