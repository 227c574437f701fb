use firefly_runtime::frame_buffer::{FrameBuffer, Rect};
use firefly_runtime::graphics::{draw_image, parse_image, ImageError};

/// A 4x4 image with all 16 colors.
const IMG16: &[u8] = &[
    // header
    0x21, // magic number (marker that signals that this is an image)
    0x04, // bits per pixel (BPP, either 0x01, 0x02, or 0x04)
    0x04, // ┬ image width, 16 bit little-endian
    0x00, // ┘
    0xff, // transparency color
    0x01, // ┬ 8 bytes color palette (16 colors)
    0x23, // ┤
    0x45, // ┤
    0x67, // ┤
    0x89, // ┤
    0xAB, // ┤
    0xCD, // ┤
    0xEF, // ┘
    // pixels
    0x01, 0x23, // row 1
    0x45, 0x67, // row 2
    0x89, 0xAB, // row 3
    0xCD, 0xEF, // row 4
];

/// The palette index of the pixel at the given point.
fn pixel(frame: &FrameBuffer, x: usize, y: usize) -> u8 {
    let i = y * 240 + x;
    let byte = frame.data[i / 2];
    if i % 2 == 0 {
        byte & 0xf
    } else {
        byte >> 4
    }
}

/// The letter the test palette gives to a palette index.
fn letter(c: u8) -> char {
    match c {
        0 => 'W',
        1 => 'G',
        2 => 'R',
        3 => 'B',
        4 => 'Y',
        5 => 'M',
        6 => 'C',
        _ => 'K',
    }
}

/// Check the colors of the screen region that starts at `(x0, 0)`.
fn check_display_at(frame: &FrameBuffer, x0: usize, pattern: &[&str]) {
    for (y, line) in pattern.iter().enumerate() {
        let got: String = (0..line.len()).map(|dx| letter(pixel(frame, x0 + dx, y))).collect();
        assert_eq!(&got, line, "line {y}");
    }
}

fn check_display(frame: &FrameBuffer, pattern: &[&str]) {
    check_display_at(frame, 0, pattern)
}

fn draw(x: i32, y: i32) -> FrameBuffer {
    let mut frame = FrameBuffer::new();
    draw_image(&mut frame, false, IMG16, x, y, None, false).unwrap();
    frame
}

#[test]
fn test_draw_image() {
    let frame = draw(1, 2);
    check_display(
        &frame,
        &[
            "WWWWWW", // y=0
            "WWWWWW", // y=1
            "WWGRBW", // y=2
            "WYMCKW", // y=3
            "WKKKKW", // y=4
            "WKKKKW", // y=5
            "WWWWWW", // y=6
        ],
    );
    assert!(frame.dirty);
}

#[test]
fn test_draw_image_oob_left1() {
    let frame = draw(-1, 2);
    check_display(
        &frame,
        &[
            "WWWWWW", // y=0
            "WWWWWW", // y=1
            "GRBWWW", // y=2
            "MCKWWW", // y=3
            "KKKWWW", // y=4
            "KKKWWW", // y=5
            "WWWWWW", // y=6
        ],
    );
}

#[test]
fn test_draw_image_oob_left2() {
    let frame = draw(-2, 2);
    check_display(
        &frame,
        &[
            "WWWWWW", // y=0
            "WWWWWW", // y=1
            "RBWWWW", // y=2
            "CKWWWW", // y=3
            "KKWWWW", // y=4
            "KKWWWW", // y=5
            "WWWWWW", // y=6
        ],
    );
}

#[test]
fn test_draw_image_oob_top() {
    let frame = draw(1, -1);
    check_display(
        &frame,
        &[
            "WYMCKW", // y=0
            "WKKKKW", // y=1
            "WKKKKW", // y=2
            "WWWWWW", // y=3
            "WWWWWW", // y=4
            "WWWWWW", // y=5
            "WWWWWW", // y=6
        ],
    );
}

#[test]
fn test_draw_image_oob_right2() {
    let frame = draw(240 - 2, 2);
    check_display_at(
        &frame,
        240 - 6,
        &[
            "WWWWWW", // y=0
            "WWWWWW", // y=1
            "WWWWWG", // y=2
            "WWWWYM", // y=3
            "WWWWKK", // y=4
            "WWWWKK", // y=5
            "WWWWWW", // y=6
        ],
    );
}

#[test]
fn draw_image_aligned_copies_whole_bytes() {
    // Even x and no transparency: the image bytes are copied as they are.
    let frame = draw(2, 0);
    check_display(
        &frame,
        &[
            "WWWGRB", // y=0
            "WWYMCK", // y=1
            "WWKKKK", // y=2
            "WWKKKK", // y=3
            "WWWWWW", // y=4
        ],
    );
}

#[test]
fn draw_image_skips_transparent_color() {
    let mut img = IMG16.to_vec();
    img[4] = 1; // color 1 is transparent
    let mut frame = FrameBuffer::new();
    frame.clear(2);
    draw_image(&mut frame, false, &img, 0, 0, None, false).unwrap();
    // color 1 of the image is not drawn: the red background stays
    check_display(&frame, &["WRRB", "YMCK"]);
}

#[test]
fn draw_sub_image_part() {
    let mut frame = FrameBuffer::new();
    let sub = Rect { x: 1, y: 1, width: 2, height: 2 };
    draw_image(&mut frame, false, IMG16, 3, 1, Some(sub), false).unwrap();
    check_display(&frame, &["WWWWWW", "WWWMCW", "WWWKKW", "WWWWWW"]);
    assert!(frame.dirty);
}

#[test]
fn draw_sub_image_oob_top_left() {
    let mut frame = FrameBuffer::new();
    let sub = Rect { x: 0, y: 0, width: 4, height: 4 };
    draw_image(&mut frame, false, IMG16, -1, -2, Some(sub), false).unwrap();
    check_display(&frame, &["KKKW", "KKKW", "WWWW"]);
}

#[test]
fn draw_image_errors() {
    let mut frame = FrameBuffer::new();
    let r = draw_image(&mut frame, true, &[], 0, 0, None, false);
    assert_eq!(r, Err(ImageError::NilPointer));
    let r = draw_image(&mut frame, false, &[], 0, 0, None, false);
    assert_eq!(r, Err(ImageError::Empty));
    let r = draw_image(&mut frame, false, &IMG16[..6], 0, 0, None, false);
    assert_eq!(r, Err(ImageError::TooSmall));
    assert_eq!(r.unwrap_err().message(), "image file is too small");

    let mut img = IMG16.to_vec();
    img[2] = 0;
    let r = draw_image(&mut frame, false, &img, 0, 0, None, false);
    assert_eq!(r, Err(ImageError::ZeroWidth));

    let mut img = IMG16.to_vec();
    img[1] = 3;
    let r = draw_image(&mut frame, false, &img, 0, 0, None, false);
    assert_eq!(r, Err(ImageError::InvalidBpp));

    let r = draw_image(&mut frame, false, &IMG16[..9], 0, 0, None, false);
    assert_eq!(r, Err(ImageError::HeaderTooSmall));

    let mut img = IMG16.to_vec();
    img[2] = 3;
    let r = draw_image(&mut frame, false, &img, 0, 0, None, false);
    assert_eq!(r, Err(ImageError::InvalidWidth));

    let r = draw_image(&mut frame, false, IMG16, 0, 0, None, true);
    assert_eq!(r, Err(ImageError::OnCanvas));
    assert!(!frame.dirty);
    check_display(&frame, &["WWWW"]);
}

#[test]
fn parse_image_reads_header() {
    let img = parse_image(false, IMG16, None, false).unwrap();
    assert_eq!(img.width, 4);
    assert_eq!(img.transp, 0xff);
    assert_eq!(img.bytes, &IMG16[13..]);
    // 1 BPP: one byte of swaps, 8 pixels per byte
    let one_bpp = [0x21, 0x01, 0x08, 0x00, 0x00, 0x00, 0xff, 0x0f];
    let img = parse_image(false, &one_bpp, None, false).unwrap();
    assert_eq!(img.bytes, &one_bpp[6..]);
    assert_eq!(img.width, 8);
}
