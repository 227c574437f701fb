use firefly_runtime::frame_buffer::FrameBuffer;
use firefly_runtime::graphics::{
    check_canvas, get_shape_style, parse_color, parse_font, CanvasError, FontHeader,
};
use firefly_runtime::input::{read_buttons, read_pad, InputState, Pad};
use firefly_runtime::misc::{get_random, set_seed};
use firefly_runtime::stash::{load_stash, rewrite_vec};

#[test]
fn test_set_seed() {
    let mut seed = 0u32;
    set_seed(&mut seed, 131415);
    assert_eq!(seed, 131415)
}

#[test]
fn test_get_random() {
    let mut seed = 13u32;
    let output = get_random(&mut seed);
    // Hardcoded value that might change if we change the random algorithm.
    let expected = 3514797;
    assert_eq!(output as i32, expected);
    assert_eq!(seed, expected as u32)
}

#[test]
fn random_from_zero_seed_is_not_zero() {
    let mut seed = 0u32;
    let a = get_random(&mut seed);
    assert_ne!(a, 0);
    let mut one = 1u32;
    assert_eq!(get_random(&mut one), a);
}

#[test]
fn test_clear_screen() {
    let mut frame = FrameBuffer::new();
    let color = parse_color(2).unwrap();
    frame.clear(color);
    // check that all pixel in the frame buffer are set to 1.
    for byte in &*frame.data {
        assert_eq!(byte, &0b_0001_0001);
    }
}

#[test]
fn parse_colors() {
    assert_eq!(parse_color(0), None);
    assert_eq!(parse_color(1), Some(0));
    assert_eq!(parse_color(16), Some(15));
    assert_eq!(parse_color(17), Some(0));
}

#[test]
fn shape_styles() {
    let s = get_shape_style(3, 0, 5);
    assert_eq!(s.fill_color, Some(2));
    assert_eq!(s.stroke_color, None);
    assert_eq!(s.stroke_width, 0);
    let s = get_shape_style(0, 4, 2);
    assert_eq!(s.fill_color, None);
    assert_eq!(s.stroke_color, Some(3));
    assert_eq!(s.stroke_width, 2);
    let s = get_shape_style(0, 4, 0);
    assert_eq!(s.stroke_color, None);
}

#[test]
fn font_headers() {
    assert_eq!(parse_font(&[]), Err("font is empty: make sure you load it with a correct name"));
    assert_eq!(parse_font(&[1, 2, 3]), Err("font is too short"));
    assert_eq!(parse_font(&[0x11, 14, 6, 9, 7, 0, 1, 0, 0, 0]), Err("unknown mapping"));
    let header = parse_font(&[0x11, 1, 6, 9, 7, 0x2c, 0x01, 0, 0, 0]).unwrap();
    assert_eq!(
        header,
        FontHeader { encoding: 1, char_width: 6, char_height: 9, baseline: 7, image_width: 300 }
    );
}

#[test]
fn canvas_headers() {
    let mut img = vec![0x21, 4, 4, 0, 0xff, 0, 0, 0, 0, 0, 0, 0, 0];
    assert_eq!(check_canvas(&img), Err(CanvasError::TooSmall));
    img.extend_from_slice(&[0, 0]);
    assert_eq!(check_canvas(&img), Ok(4));
    img.push(0);
    assert_eq!(check_canvas(&img), Err(CanvasError::InvalidWidth));
    img[1] = 2;
    assert_eq!(check_canvas(&img), Err(CanvasError::NotFourBpp));
    assert_eq!(CanvasError::TooSmall.message(), "canvas is too small");
}

#[test]
fn pad_and_buttons() {
    assert_eq!(read_pad(&None), 0xffff);
    let input = Some(InputState { pad: Some(Pad { x: -1, y: 2 }), buttons: 0b10010 });
    assert_eq!(read_pad(&input), 0xffff_0002);
    assert_eq!(read_buttons(&input), 0b10010);
    assert_eq!(read_buttons(&None), 0);
    let no_pad = Some(InputState { pad: None, buttons: 1 });
    assert_eq!(read_pad(&no_pad), 0xffff);
    let input = input.unwrap();
    assert!(!input.s());
    assert!(input.e());
    assert!(input.menu());
    assert!(!input.w());
    assert!(!input.n());
}

#[test]
fn stash_rewrite_and_load() {
    let mut stash = vec![1, 2, 3];
    rewrite_vec(&mut stash, &[9, 8, 7, 6, 5]);
    assert_eq!(stash, vec![9, 8, 7, 6, 5]);
    rewrite_vec(&mut stash, &[4]);
    assert_eq!(stash, vec![4]);
    rewrite_vec(&mut stash, &[]);
    assert!(stash.is_empty());

    let mut buf = [0u8; 4];
    assert_eq!(load_stash(&[1, 2], &mut buf), (2, true));
    assert_eq!(buf, [1, 2, 0, 0]);
    let mut buf = [0u8; 2];
    assert_eq!(load_stash(&[5, 6, 7], &mut buf), (3, false));
    assert_eq!(buf, [5, 6]);
}
