use firefly_runtime::input::{InputState, Pad};
use firefly_runtime::menu::{DPad4, Menu, MenuItem};

fn buttons(b: u8) -> Option<InputState> {
    Some(InputState { pad: None, buttons: b })
}

fn pad(x: i16, y: i16) -> Option<InputState> {
    Some(InputState { pad: Some(Pad { x, y }), buttons: 0 })
}

const MENU: u8 = 0b1_0000;
const S: u8 = 0b1;

fn open(menu: &mut Menu) {
    assert!(menu.handle_input(&buttons(MENU)).is_none());
    assert!(menu.active());
    assert!(menu.handle_input(&None).is_none());
    assert!(menu.active());
}

fn name(item: Option<&MenuItem>) -> Option<String> {
    item.map(|i| i.as_str().to_string())
}

#[test]
fn dpad_directions() {
    assert!(DPad4::from_pad(None) == DPad4::Center);
    assert!(DPad4::from_pad(Some(Pad { x: 0, y: 301 })) == DPad4::Up);
    assert!(DPad4::from_pad(Some(Pad { x: 0, y: 300 })) == DPad4::Center);
    assert!(DPad4::from_pad(Some(Pad { x: 0, y: -400 })) == DPad4::Down);
    assert!(DPad4::from_pad(Some(Pad { x: 500, y: 400 })) == DPad4::Right);
    assert!(DPad4::from_pad(Some(Pad { x: -500, y: 400 })) == DPad4::Left);
    // on the diagonal, no direction wins
    assert!(DPad4::from_pad(Some(Pad { x: 400, y: 400 })) == DPad4::Center);
}

#[test]
fn menu_opens_and_closes_with_menu_button() {
    let mut menu = Menu::new();
    assert!(!menu.active());
    assert!(menu.dirty());
    open(&mut menu);
    assert!(!menu.rendered());
    // press and release again to close
    assert!(menu.handle_input(&buttons(MENU)).is_none());
    assert!(menu.active());
    assert!(menu.handle_input(&None).is_none());
    assert!(!menu.active());
    assert_eq!(menu.frames, 3);
}

#[test]
fn menu_select_item() {
    let mut menu = Menu::new();
    menu.add(7, "my item".to_string());
    open(&mut menu);
    // move down to "take screenshot"
    assert!(menu.handle_input(&pad(0, -500)).is_none());
    assert_eq!(menu.selected, 1);
    // holding the direction doesn't move the cursor further
    assert!(menu.handle_input(&pad(0, -500)).is_none());
    assert_eq!(menu.selected, 1);
    // move up to the custom item
    assert!(menu.handle_input(&pad(0, 500)).is_none());
    assert_eq!(menu.selected, 0);
    // right goes to the last item, left to the first
    assert!(menu.handle_input(&pad(500, 0)).is_none());
    assert_eq!(menu.selected, 3);
    assert!(menu.handle_input(&pad(-500, 0)).is_none());
    assert_eq!(menu.selected, 0);
    assert!(menu.handle_input(&pad(-500, 0)).is_none());
    assert_eq!(menu.selected, 0);
    // press and release the selection button
    assert!(menu.handle_input(&buttons(S)).is_none());
    let item = menu.handle_input(&None);
    assert_eq!(name(item), Some("my item".to_string()));
    assert!(!menu.active());
}

#[test]
fn menu_select_system_item() {
    let mut menu = Menu::new();
    open(&mut menu);
    assert!(menu.handle_input(&pad(0, -500)).is_none());
    assert!(menu.handle_input(&pad(0, 0)).is_none());
    assert!(menu.handle_input(&pad(0, -500)).is_none());
    assert_eq!(menu.selected, 2);
    assert!(menu.handle_input(&pad(0, 0)).is_none());
    assert!(menu.handle_input(&pad(0, -500)).is_none());
    assert_eq!(menu.selected, 2);
    assert!(menu.handle_input(&buttons(0b10)).is_none());
    let item = menu.handle_input(&None);
    assert!(matches!(item, Some(MenuItem::Quit)));
    assert_eq!(name(item), Some("exit app".to_string()));
}

#[test]
fn menu_remove_items() {
    let mut menu = Menu::new();
    menu.add(1, "a".to_string());
    menu.add(2, "b".to_string());
    menu.add(1, "c".to_string());
    menu.remove(1);
    assert_eq!(menu.app_items.len(), 1);
    assert_eq!(menu.app_items[0].as_str(), "b");
    menu.remove(3);
    assert_eq!(menu.app_items.len(), 1);
}

#[test]
fn menu_item_names() {
    assert_eq!(MenuItem::ScreenShot.as_str(), "take screenshot");
    assert_eq!(MenuItem::Restart.as_str(), "restart app");
    assert_eq!(MenuItem::Quit.as_str(), "exit app");
    assert_eq!(MenuItem::Custom(3, "x".to_string()).as_str(), "x");
}

#[test]
fn menu_activate_directly() {
    let mut menu = Menu::new();
    menu.set_rendered(true);
    menu.set_dirty(false);
    menu.activate();
    assert!(menu.active());
    assert!(!menu.rendered());
    assert!(menu.dirty());
    menu.deactivate();
    assert!(!menu.active());
    menu.set_actor(true);
    assert!(menu.actor());
}
