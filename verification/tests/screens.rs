use firefly_runtime::frame_buffer::{hline_allowed, vline_allowed, Rect};
use firefly_runtime::menu::{Menu, MenuDraw};
use firefly_runtime::scene::{longest_line_len, ErrorScene};

#[test]
fn menu_draw_plan() {
    let mut menu = Menu::new();
    menu.set_actor(true);
    // Not on the screen yet: the background and the items.
    assert_eq!(menu.render_plan(), Some(MenuDraw { background: true, items: true }));
    assert!(menu.rendered());
    assert!(!menu.dirty());
    // Nothing changed: nothing to draw.
    assert_eq!(menu.render_plan(), None);
    // The cursor moved: the items again, not the background.
    menu.set_dirty(true);
    assert_eq!(menu.render_plan(), Some(MenuDraw { background: false, items: true }));
    // Paused by another player.
    menu.set_actor(false);
    menu.set_rendered(false);
    assert_eq!(menu.render_plan(), Some(MenuDraw { background: true, items: false }));
}

#[test]
fn menu_layout() {
    let mut menu = Menu::new();
    assert_eq!(menu.cursor_top(0), 22);
    assert_eq!(menu.cursor_top(2), 46);
    assert_eq!(menu.item_baseline(1), 41);
    assert_eq!(menu.separator_top(), None);
    menu.add(1, "one".to_string());
    menu.add(2, "two".to_string());
    // The system items move down below the separator.
    assert_eq!(menu.cursor_top(1), 34);
    assert_eq!(menu.cursor_top(2), 50);
    assert_eq!(menu.item_baseline(2), 57);
    assert_eq!(menu.separator_top(), Some(48));
}

#[test]
fn error_popup_plan() {
    let text = "something went wrong while loading the app".as_bytes().to_vec();
    let mut scene = ErrorScene::new(text);
    let plan = scene.render_plan();
    assert!(plan.message);
    assert_eq!(plan.button, Some(false));
    // The message got wrapped into lines.
    assert_eq!(
        String::from_utf8(scene.msg.clone()).unwrap(),
        "something went wrong\nwhile loading the app"
    );
    let plan = scene.render_plan();
    assert!(!plan.message);
    assert_eq!(plan.button, None);
    // Once the button is active, it is drawn again.
    assert!(!scene.update(0, 0));
    assert!(!scene.update(600, 0));
    let plan = scene.render_plan();
    assert_eq!(plan.button, Some(true));
}

#[test]
fn longest_lines() {
    assert_eq!(longest_line_len(b""), 0);
    assert_eq!(longest_line_len(b"abc"), 3);
    assert_eq!(longest_line_len(b"abc\nde\n"), 3);
    assert_eq!(longest_line_len(b"a\nbcdef\ngh"), 5);
    // A carriage return before a line break is part of the break.
    assert_eq!(longest_line_len(b"abcd\r\nab"), 4);
    assert_eq!(longest_line_len(b"ab\nabc\r"), 4);
}

#[test]
fn line_checks() {
    assert!(hline_allowed(0, 10, 5, 1));
    assert!(hline_allowed(10, 0, 5, 2));
    assert!(!hline_allowed(i32::MIN, i32::MAX, 5, 1));
    assert!(vline_allowed(5, 0, 10, 3));
    assert!(!vline_allowed(5, i32::MIN, i32::MAX, 3));
    assert!(Rect { x: 0, y: 0, width: 10, height: 10 }.fill_allowed());
    assert!(!Rect { x: i32::MAX, y: 0, width: 10, height: 10 }.fill_allowed());
    // A rectangle left of the screen is clipped to nothing, which can be filled.
    assert!(Rect { x: -10, y: 0, width: 5, height: 5 }.fill_allowed());
}
