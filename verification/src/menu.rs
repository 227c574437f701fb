use vstd::prelude::*;
use crate::input::{InputState, Pad, pressed, BTN_S, BTN_E, BTN_MENU};
use crate::net::{FSPeer, FrameSyncer, current, spec_input_state};

verus! {

/// An item of the system menu.
pub enum MenuItem {
    /// An item added by the app: its index and its name.
    Custom(u8, String),
    ScreenShot,
    Restart,
    Quit,
}

/// What the runtime does with a chosen menu item.
#[derive(Debug, Clone, Copy, PartialEq, Eq, Structural)]
pub enum MenuChoice {
    /// Tell the app, through its `handle_menu` callback, which of its items was chosen.
    Custom(u8),
    ScreenShot,
    /// Run the same app again.
    Restart,
    /// Exit the app.
    Quit,
}

/// The choice for a chosen menu item; none in the launcher, which has no menu.
pub fn menu_choice(launcher: bool, item: Option<&MenuItem>) -> (res: Option<MenuChoice>)
    ensures
        res == if launcher {
            None
        } else {
            match item {
                None => None,
                Some(MenuItem::Custom(i, _)) => Some(MenuChoice::Custom(*i)),
                Some(MenuItem::ScreenShot) => Some(MenuChoice::ScreenShot),
                Some(MenuItem::Restart) => Some(MenuChoice::Restart),
                Some(MenuItem::Quit) => Some(MenuChoice::Quit),
            }
        },
{
    if launcher {
        return None;
    }
    match item {
        None => None,
        Some(MenuItem::Custom(i, _)) => Some(MenuChoice::Custom(*i)),
        Some(MenuItem::ScreenShot) => Some(MenuChoice::ScreenShot),
        Some(MenuItem::Restart) => Some(MenuChoice::Restart),
        Some(MenuItem::Quit) => Some(MenuChoice::Quit),
    }
}

impl MenuItem {
    /// The text shown for the item.
    pub open spec fn spec_str(&self) -> Seq<char> {
        match self {
            MenuItem::Custom(_, t) => t@,
            MenuItem::ScreenShot => "take screenshot"@,
            MenuItem::Restart => "restart app"@,
            MenuItem::Quit => "exit app"@,
        }
    }

    /// The text shown for the item.
    pub fn as_str(&self) -> (res: &str)
        ensures
            res@ == self.spec_str(),
    {
        match self {
            MenuItem::Custom(_, t) => t.as_str(),
            MenuItem::ScreenShot => "take screenshot",
            MenuItem::Restart => "restart app",
            MenuItem::Quit => "exit app",
        }
    }
}

/// The pad position reduced to one of four directions.
#[derive(Debug, Clone, Copy, PartialEq, Eq, Structural)]
pub enum DPad4 {
    Center,
    Left,
    Right,
    Up,
    Down,
}

/// How far from the center the finger must be for a direction to be pressed.
pub const DPAD4_THRESHOLD: i16 = 300;

/// The absolute value.
pub open spec fn abs(v: int) -> int {
    if v < 0 { -v } else { v }
}

/// The direction of the pad: the axis farther from the center wins,
/// if it is farther than the threshold.
pub open spec fn spec_dpad(pad: Option<Pad>) -> DPad4 {
    match pad {
        None => DPad4::Center,
        Some(p) => {
            let x = p.x as int;
            let y = p.y as int;
            if y > DPAD4_THRESHOLD && y > abs(x) {
                DPad4::Up
            } else if y < -DPAD4_THRESHOLD && -y > abs(x) {
                DPad4::Down
            } else if x > DPAD4_THRESHOLD && x > abs(y) {
                DPad4::Right
            } else if x < -DPAD4_THRESHOLD && -x > abs(y) {
                DPad4::Left
            } else {
                DPad4::Center
            }
        },
    }
}

/// The absolute value of a pad coordinate (the smallest one has none in `i16`).
fn abs_i16(v: i16) -> (res: i16)
    requires
        v != i16::MIN,
    ensures
        res == abs(v as int),
{
    if v < 0 {
        -v
    } else {
        v
    }
}

/// The pad coordinates have absolute values.
pub open spec fn pad_ok(pad: Option<Pad>) -> bool {
    pad matches Some(p) ==> p.x != i16::MIN && p.y != i16::MIN
}

impl DPad4 {
    /// The direction of the pad.
    pub fn from_pad(pad: Option<Pad>) -> (res: Self)
        requires
            pad_ok(pad),
        ensures
            res == spec_dpad(pad),
    {
        let pad = match pad {
            None => return DPad4::Center,
            Some(p) => p,
        };
        let x = pad.x;
        let y = pad.y;
        if y > DPAD4_THRESHOLD && y > abs_i16(x) {
            DPad4::Up
        } else if y < -DPAD4_THRESHOLD && -y > abs_i16(x) {
            DPad4::Down
        } else if x > DPAD4_THRESHOLD && x > abs_i16(y) {
            DPad4::Right
        } else if x < -DPAD4_THRESHOLD && -x > abs_i16(y) {
            DPad4::Left
        } else {
            DPad4::Center
        }
    }
}

/// The direction seen in a mirror that swaps left and right.
pub open spec fn mirrored_x(d: DPad4) -> DPad4 {
    match d {
        DPad4::Left => DPad4::Right,
        DPad4::Right => DPad4::Left,
        other => other,
    }
}

/// The direction seen in a mirror that swaps up and down.
pub open spec fn mirrored_y(d: DPad4) -> DPad4 {
    match d {
        DPad4::Up => DPad4::Down,
        DPad4::Down => DPad4::Up,
        other => other,
    }
}

/// The direction seen in a mirror along the diagonal, which swaps the two axes:
/// right and up trade places, and so do left and down.
pub open spec fn transposed(d: DPad4) -> DPad4 {
    match d {
        DPad4::Up => DPad4::Right,
        DPad4::Right => DPad4::Up,
        DPad4::Down => DPad4::Left,
        DPad4::Left => DPad4::Down,
        DPad4::Center => DPad4::Center,
    }
}

/// Each direction is pressed exactly when the finger is more than 300 from the
/// center along that direction and farther along it than along the other axis
/// either way: up needs `y > 300` and `y > |x|`, down `-y > 300` and `-y > |x|`,
/// right `x > 300` and `x > |y|`, left `-x > 300` and `-x > |y|`.
/// No touch, or a finger that is not clearly on one side, is the center.
pub proof fn law_dpad_direction(p: Pad)
    requires
        pad_ok(Some(p)),
    ensures
        (spec_dpad(Some(p)) == DPad4::Up) <==> (p.y > 300 && p.y > p.x && p.y > -p.x),
        (spec_dpad(Some(p)) == DPad4::Down) <==> (-p.y > 300 && -p.y > p.x && -p.y > -p.x),
        (spec_dpad(Some(p)) == DPad4::Right) <==> (p.x > 300 && p.x > p.y && p.x > -p.y),
        (spec_dpad(Some(p)) == DPad4::Left) <==> (-p.x > 300 && -p.x > p.y && -p.x > -p.y),
        spec_dpad(None) == DPad4::Center,
{
}

/// The axis farther from the center decides: when the finger is at least as far
/// sideways as up or down, the pad is never up or down, and when it is at least
/// as far up or down as sideways, it is never left or right. Within 300 of the
/// center on both axes it is the center.
pub proof fn law_dpad_farther_axis(p: Pad)
    requires
        pad_ok(Some(p)),
    ensures
        abs(p.x as int) >= abs(p.y as int) ==> spec_dpad(Some(p)) != DPad4::Up && spec_dpad(Some(p)) != DPad4::Down,
        abs(p.y as int) >= abs(p.x as int) ==> spec_dpad(Some(p)) != DPad4::Left && spec_dpad(Some(p)) != DPad4::Right,
        -300 <= p.x <= 300 && -300 <= p.y <= 300 ==> spec_dpad(Some(p)) == DPad4::Center,
{
}

/// The pad has no favoured side: mirroring the finger left to right mirrors the
/// direction, mirroring it top to bottom mirrors the direction, and swapping the
/// two axes swaps the directions of the two axes.
pub proof fn law_dpad_symmetric(p: Pad)
    requires
        pad_ok(Some(p)),
    ensures
        spec_dpad(Some(Pad { x: (-p.x) as i16, y: p.y })) == mirrored_x(spec_dpad(Some(p))),
        spec_dpad(Some(Pad { x: p.x, y: (-p.y) as i16 })) == mirrored_y(spec_dpad(Some(p))),
        spec_dpad(Some(Pad { x: p.y, y: p.x })) == transposed(spec_dpad(Some(p))),
{
}

/// The menu is open.
pub const MASK_ACTIVE: u8 = 0b1;
/// The menu background is drawn on the screen.
pub const MASK_RENDERED: u8 = 0b10;
/// The cursor moved since the menu was last drawn.
pub const MASK_DIRTY: u8 = 0b100;
/// The menu button is pressed.
pub const MASK_MENU_PRESSED: u8 = 0b_1000;
/// The selection button is pressed.
pub const MASK_SELECT_PRESSED: u8 = 0b1_0000;
/// The menu button was released while the menu was open.
pub const MASK_WAS_RELEASED: u8 = 0b10_0000;
/// This device opened the menu.
pub const MASK_ACTOR: u8 = 0b100_0000;

/// The boolean state of the menu packed into its flags byte.
pub struct MenuFlags {
    pub active: bool,
    pub rendered: bool,
    pub dirty: bool,
    pub menu_pressed: bool,
    pub select_pressed: bool,
    pub was_released: bool,
    pub actor: bool,
}

/// True if the bit of the mask is set in the flags.
pub open spec fn flag(flags: u8, mask: u8) -> bool {
    flags & mask != 0
}

/// The booleans packed into the flags byte.
pub open spec fn flags_of(f: u8) -> MenuFlags {
    MenuFlags {
        active: flag(f, MASK_ACTIVE),
        rendered: flag(f, MASK_RENDERED),
        dirty: flag(f, MASK_DIRTY),
        menu_pressed: flag(f, MASK_MENU_PRESSED),
        select_pressed: flag(f, MASK_SELECT_PRESSED),
        was_released: flag(f, MASK_WAS_RELEASED),
        actor: flag(f, MASK_ACTOR),
    }
}

/// The mask is one of the seven flag bits.
pub open spec fn is_flag(m: u8) -> bool {
    m == MASK_ACTIVE || m == MASK_RENDERED || m == MASK_DIRTY || m == MASK_MENU_PRESSED
        || m == MASK_SELECT_PRESSED || m == MASK_WAS_RELEASED || m == MASK_ACTOR
}

/// The flags after setting (or clearing) the bit of `mask` to `v`.
pub open spec fn with_flag(f: MenuFlags, mask: u8, v: bool) -> MenuFlags {
    MenuFlags {
        active: if mask == MASK_ACTIVE { v } else { f.active },
        rendered: if mask == MASK_RENDERED { v } else { f.rendered },
        dirty: if mask == MASK_DIRTY { v } else { f.dirty },
        menu_pressed: if mask == MASK_MENU_PRESSED { v } else { f.menu_pressed },
        select_pressed: if mask == MASK_SELECT_PRESSED { v } else { f.select_pressed },
        was_released: if mask == MASK_WAS_RELEASED { v } else { f.was_released },
        actor: if mask == MASK_ACTOR { v } else { f.actor },
    }
}

/// Setting or clearing one flag bit changes only that flag.
proof fn lemma_set_bit(f: u8, m: u8, k: u8)
    requires
        m == 1 || m == 2 || m == 4 || m == 8 || m == 16 || m == 32 || m == 64,
        k == 1 || k == 2 || k == 4 || k == 8 || k == 16 || k == 32 || k == 64,
    ensures
        ((f | m) & k != 0) == (if k == m { true } else { f & k != 0 }),
        ((f & !m) & k != 0) == (if k == m { false } else { f & k != 0 }),
{
    assert(((f | m) & k != 0) == (if k == m { true } else { f & k != 0 })) by (bit_vector)
        requires
            m == 1 || m == 2 || m == 4 || m == 8 || m == 16 || m == 32 || m == 64,
            k == 1 || k == 2 || k == 4 || k == 8 || k == 16 || k == 32 || k == 64,
    ;
    assert(((f & !m) & k != 0) == (if k == m { false } else { f & k != 0 })) by (bit_vector)
        requires
            m == 1 || m == 2 || m == 4 || m == 8 || m == 16 || m == 32 || m == 64,
            k == 1 || k == 2 || k == 4 || k == 8 || k == 16 || k == 32 || k == 64,
    ;
}

/// What the menu button does to the flags: pressing it opens a closed menu;
/// releasing it closes an open menu if it was pressed and released before.
pub open spec fn spec_menu_button(f: MenuFlags, pressed: bool) -> MenuFlags {
    let was_pressed = f.menu_pressed;
    let f1 = with_flag(f, MASK_MENU_PRESSED, pressed);
    if f1.active {
        if !pressed {
            let f2 = if f1.was_released && was_pressed { with_flag(f1, MASK_ACTIVE, false) } else { f1 };
            with_flag(f2, MASK_WAS_RELEASED, true)
        } else {
            f1
        }
    } else if !was_pressed && pressed {
        with_flag(spec_activate(f1), MASK_WAS_RELEASED, false)
    } else {
        f1
    }
}

/// Opening the menu: it must be drawn again, with the background.
pub open spec fn spec_activate(f: MenuFlags) -> MenuFlags {
    with_flag(with_flag(with_flag(f, MASK_ACTIVE, true), MASK_RENDERED, false), MASK_DIRTY, true)
}

/// The new selected index for the pressed direction and whether it changed.
pub open spec fn spec_move(selected: int, n_items: int, dir: DPad4) -> (int, bool) {
    match dir {
        DPad4::Up => if selected > 0 { (selected - 1, true) } else { (selected, false) },
        DPad4::Down => if selected < n_items - 1 { (selected + 1, true) } else { (selected, false) },
        DPad4::Left => if selected > 0 { (0, true) } else { (selected, false) },
        DPad4::Right => if selected < n_items - 1 { (n_items - 1, true) } else { (selected, false) },
        DPad4::Center => (selected, false),
    }
}

/// The contents of the system items vector.
pub uninterp spec fn sys_items_of(v: heapless::Vec<MenuItem, 3>) -> Seq<MenuItem>;

#[verifier::external_type_specification]
#[verifier::external_body]
#[verifier::reject_recursive_types(T)]
pub struct ExHeaplessVec<T, const N: usize>(heapless::Vec<T, N>);

/// `heapless::Vec::new`: an empty vector with room for 3 items.
#[verifier::external_body]
fn sys_items_new() -> (v: heapless::Vec<MenuItem, 3>)
    ensures
        sys_items_of(v) == Seq::<MenuItem>::empty(),
{
    heapless::Vec::new()
}

/// `heapless::Vec::push`: appends the item if the vector has fewer than 3 items,
/// otherwise gives the item back and leaves the vector as it is.
#[verifier::external_body]
fn sys_items_push(v: &mut heapless::Vec<MenuItem, 3>, item: MenuItem) -> (res: Result<(), MenuItem>)
    ensures
        sys_items_of(*old(v)).len() < 3 ==> res is Ok && sys_items_of(*final(v)) == sys_items_of(*old(v)).push(item),
        sys_items_of(*old(v)).len() >= 3 ==> (res matches Err(back) && back == item) && sys_items_of(*final(v)) == sys_items_of(*old(v)),
{
    v.push(item)
}

/// `heapless::Vec::as_slice`: the items of the vector.
#[verifier::external_body]
fn sys_items_slice(v: &heapless::Vec<MenuItem, 3>) -> (res: &[MenuItem])
    ensures
        res@ == sys_items_of(*v),
{
    v.as_slice()
}

/// The system menu that the runtime shows over the app.
pub struct Menu {
    /// Custom menu items.
    pub app_items: Vec<MenuItem>,
    /// System menu items.
    pub sys_items: heapless::Vec<MenuItem, 3>,
    /// For how many frames the menu was open.
    pub frames: u32,
    /// The currently focused menu item.
    pub selected: i32,
    /// The index of the peer that activated the menu.
    pub actor_idx: u8,
    /// Packed boolean flags.
    pub flags: u8,
    /// The direction of the pad in the last frame.
    pub dpad: DPad4,
}

/// The height of a menu item, in pixels.
pub const LINE_HEIGHT: i32 = 12;
/// The distance of the menu box from the screen edges, in pixels.
pub const MENU_OFFSET: i32 = 20;

/// What to draw of the menu in a frame, see [`Menu::render_plan`].
#[derive(Debug, Clone, Copy, PartialEq, Eq, Structural)]
pub struct MenuDraw {
    /// The box of the menu, since it isn't on the screen yet.
    pub background: bool,
    /// The items and the cursor; else the note that another player paused the game.
    pub items: bool,
}

/// The system items that every menu has, in order.
pub open spec fn is_sys_items(s: Seq<MenuItem>) -> bool {
    &&& s.len() == 3
    &&& s[0] is ScreenShot
    &&& s[1] is Restart
    &&& s[2] is Quit
}

impl Menu {
    /// The system items are the three standard ones, the number of items fits
    /// into `i32`, and the selected index is not negative.
    pub open spec fn wf(&self) -> bool {
        &&& is_sys_items(sys_items_of(self.sys_items))
        &&& self.app_items@.len() + 3 <= i32::MAX
        &&& self.selected >= 0
    }

    /// All items in the order they are shown: the custom ones first.
    pub open spec fn items(&self) -> Seq<MenuItem> {
        self.app_items@ + sys_items_of(self.sys_items)
    }

    /// The flags as booleans.
    pub open spec fn view_flags(&self) -> MenuFlags {
        flags_of(self.flags)
    }

    pub fn new() -> (res: Self)
        ensures
            res.wf(),
            res.app_items@.len() == 0,
            res.frames == 0,
            res.selected == 0,
            res.actor_idx == 0,
            res.dpad == DPad4::Center,
            res.view_flags() == with_flag(flags_of(0), MASK_DIRTY, true),
    {
        let mut items = sys_items_new();
        let _ = sys_items_push(&mut items, MenuItem::ScreenShot);
        let _ = sys_items_push(&mut items, MenuItem::Restart);
        let _ = sys_items_push(&mut items, MenuItem::Quit);
        let mut menu = Self {
            app_items: Vec::new(),
            sys_items: items,
            frames: 0,
            selected: 0,
            actor_idx: 0,
            flags: 0,
            dpad: DPad4::Center,
        };
        menu.set_dirty(true);
        menu
    }

    /// Set or clear one flag.
    fn set_flag(&mut self, mask: u8, v: bool)
        requires
            is_flag(mask),
        ensures
            final(self).view_flags() == with_flag(old(self).view_flags(), mask, v),
            final(self).app_items == old(self).app_items,
            final(self).sys_items == old(self).sys_items,
            final(self).frames == old(self).frames,
            final(self).selected == old(self).selected,
            final(self).actor_idx == old(self).actor_idx,
            final(self).dpad == old(self).dpad,
    {
        let f = self.flags;
        if v {
            self.flags = f | mask;
        } else {
            self.flags = f & !mask;
        }
        proof {
            lemma_set_bit(f, mask, MASK_ACTIVE);
            lemma_set_bit(f, mask, MASK_RENDERED);
            lemma_set_bit(f, mask, MASK_DIRTY);
            lemma_set_bit(f, mask, MASK_MENU_PRESSED);
            lemma_set_bit(f, mask, MASK_SELECT_PRESSED);
            lemma_set_bit(f, mask, MASK_WAS_RELEASED);
            lemma_set_bit(f, mask, MASK_ACTOR);
        }
    }

    /// Add a custom menu item.
    pub fn add(&mut self, index: u8, name: String)
        requires
            old(self).app_items@.len() + 4 <= i32::MAX,
        ensures
            final(self).app_items@ == old(self).app_items@.push(MenuItem::Custom(index, name)),
            final(self).sys_items == old(self).sys_items,
            final(self).frames == old(self).frames,
            final(self).selected == old(self).selected,
            final(self).actor_idx == old(self).actor_idx,
            final(self).flags == old(self).flags,
            final(self).dpad == old(self).dpad,
    {
        self.app_items.push(MenuItem::Custom(index, name));
    }

    /// True if the menu should be currently shown.
    ///
    /// While it is true, the app is paused.
    pub fn active(&self) -> (res: bool)
        ensures
            res == self.view_flags().active,
    {
        self.flags & MASK_ACTIVE != 0
    }

    /// Close the menu (if open).
    pub fn deactivate(&mut self)
        ensures
            final(self).view_flags() == with_flag(old(self).view_flags(), MASK_ACTIVE, false),
            final(self).app_items == old(self).app_items,
            final(self).sys_items == old(self).sys_items,
            final(self).frames == old(self).frames,
            final(self).selected == old(self).selected,
            final(self).actor_idx == old(self).actor_idx,
            final(self).dpad == old(self).dpad,
    {
        self.set_flag(MASK_ACTIVE, false);
    }

    /// Open the menu.
    pub fn activate(&mut self)
        ensures
            final(self).view_flags() == spec_activate(old(self).view_flags()),
            final(self).app_items == old(self).app_items,
            final(self).sys_items == old(self).sys_items,
            final(self).frames == old(self).frames,
            final(self).selected == old(self).selected,
            final(self).actor_idx == old(self).actor_idx,
            final(self).dpad == old(self).dpad,
    {
        self.set_flag(MASK_ACTIVE, true);
        self.set_rendered(false);
        self.set_dirty(true);
    }

    /// True if the menu is currently rendered on the screen.
    pub fn rendered(&self) -> (res: bool)
        ensures
            res == self.view_flags().rendered,
    {
        self.flags & MASK_RENDERED != 0
    }

    pub fn set_rendered(&mut self, v: bool)
        ensures
            final(self).view_flags() == with_flag(old(self).view_flags(), MASK_RENDERED, v),
            final(self).app_items == old(self).app_items,
            final(self).sys_items == old(self).sys_items,
            final(self).frames == old(self).frames,
            final(self).selected == old(self).selected,
            final(self).actor_idx == old(self).actor_idx,
            final(self).dpad == old(self).dpad,
    {
        self.set_flag(MASK_RENDERED, v);
    }

    /// True if the cursor's new position is not rendered yet.
    pub fn dirty(&self) -> (res: bool)
        ensures
            res == self.view_flags().dirty,
    {
        self.flags & MASK_DIRTY != 0
    }

    pub fn set_dirty(&mut self, v: bool)
        ensures
            final(self).view_flags() == with_flag(old(self).view_flags(), MASK_DIRTY, v),
            final(self).app_items == old(self).app_items,
            final(self).sys_items == old(self).sys_items,
            final(self).frames == old(self).frames,
            final(self).selected == old(self).selected,
            final(self).actor_idx == old(self).actor_idx,
            final(self).dpad == old(self).dpad,
    {
        self.set_flag(MASK_DIRTY, v);
    }

    /// True if this device is the one that opened the menu.
    pub fn actor(&self) -> (res: bool)
        ensures
            res == self.view_flags().actor,
    {
        self.flags & MASK_ACTOR != 0
    }

    pub fn set_actor(&mut self, v: bool)
        ensures
            final(self).view_flags() == with_flag(old(self).view_flags(), MASK_ACTOR, v),
            final(self).app_items == old(self).app_items,
            final(self).sys_items == old(self).sys_items,
            final(self).frames == old(self).frames,
            final(self).selected == old(self).selected,
            final(self).actor_idx == old(self).actor_idx,
            final(self).dpad == old(self).dpad,
    {
        self.set_flag(MASK_ACTOR, v);
    }

    /// Decide what to draw of the menu this frame: nothing if it is on the screen and
    /// the cursor didn't move; the background too if it is not on the screen yet; the
    /// items and the cursor for the device that opened it, a pause note for the others.
    /// The menu is then on the screen with its cursor drawn.
    pub fn render_plan(&mut self) -> (res: Option<MenuDraw>)
        ensures
            res == (if old(self).view_flags().rendered && !old(self).view_flags().dirty {
                None::<MenuDraw>
            } else {
                Some(MenuDraw { background: !old(self).view_flags().rendered, items: old(self).view_flags().actor })
            }),
            final(self).view_flags() == (if res is None {
                old(self).view_flags()
            } else {
                with_flag(with_flag(old(self).view_flags(), MASK_RENDERED, true), MASK_DIRTY, false)
            }),
            final(self).app_items == old(self).app_items,
            final(self).sys_items == old(self).sys_items,
            final(self).frames == old(self).frames,
            final(self).selected == old(self).selected,
            final(self).actor_idx == old(self).actor_idx,
            final(self).dpad == old(self).dpad,
    {
        let rendered = self.rendered();
        if rendered && !self.dirty() {
            return None;
        }
        self.set_rendered(true);
        self.set_dirty(false);
        Some(MenuDraw { background: !rendered, items: self.actor() })
    }

    /// The screen line where the cursor box of item `i` starts: items are
    /// [`LINE_HEIGHT`] apart, and the system items are 4 pixels further down
    /// when there are custom items above them.
    pub fn cursor_top(&self, i: i32) -> (res: i32)
        requires
            0 <= i,
            i * LINE_HEIGHT + MENU_OFFSET + 6 <= i32::MAX,
        ensures
            res == MENU_OFFSET + 2 + i * LINE_HEIGHT + (if self.app_items@.len() != 0 && i >= self.app_items@.len() {
                4int
            } else {
                0
            }),
    {
        let mut top: i32 = MENU_OFFSET + 2 + i * LINE_HEIGHT;
        let n = self.app_items.len();
        if n != 0 && i as usize >= n {
            top = top + 4;
        }
        top
    }

    /// The baseline of the text of item `i`, see [`Menu::cursor_top`].
    pub fn item_baseline(&self, i: i32) -> (res: i32)
        requires
            0 <= i,
            i * LINE_HEIGHT + MENU_OFFSET + 13 <= i32::MAX,
        ensures
            res == MENU_OFFSET + 9 + i * LINE_HEIGHT + (if self.app_items@.len() != 0 && i >= self.app_items@.len() {
                4int
            } else {
                0
            }),
    {
        let mut y: i32 = MENU_OFFSET + 9 + i * LINE_HEIGHT;
        let n = self.app_items.len();
        if n != 0 && i as usize >= n {
            y = y + 4;
        }
        y
    }

    /// The screen line of the separator between the custom and the system items,
    /// if there are custom items.
    pub fn separator_top(&self) -> (res: Option<i32>)
        requires
            self.app_items@.len() * LINE_HEIGHT + MENU_OFFSET + 4 <= i32::MAX,
        ensures
            res == (if self.app_items@.len() == 0 {
                None::<i32>
            } else {
                Some((self.app_items@.len() * LINE_HEIGHT + 4 + MENU_OFFSET) as i32)
            }),
    {
        let n = self.app_items.len();
        if n == 0 {
            None
        } else {
            Some(n as i32 * LINE_HEIGHT + 4 + MENU_OFFSET)
        }
    }

    /// Open or close the menu as the menu button says, see [`spec_menu_button`].
    pub fn handle_menu_button(&mut self, pressed: bool)
        ensures
            final(self).view_flags() == spec_menu_button(old(self).view_flags(), pressed),
            final(self).app_items == old(self).app_items,
            final(self).sys_items == old(self).sys_items,
            final(self).frames == old(self).frames,
            final(self).selected == old(self).selected,
            final(self).actor_idx == old(self).actor_idx,
            final(self).dpad == old(self).dpad,
    {
        let was_pressed = self.flags & MASK_MENU_PRESSED != 0;
        self.set_flag(MASK_MENU_PRESSED, pressed);

        // When menu is open, close it on releasing the menu button.
        if self.active() {
            if !pressed {
                if self.flags & MASK_WAS_RELEASED != 0 && was_pressed {
                    self.deactivate();
                }
                self.set_flag(MASK_WAS_RELEASED, true);
            }
            return;
        }

        // When menu is closed, open it on pressing the menu button.
        if !was_pressed && pressed {
            self.activate();
            self.set_flag(MASK_WAS_RELEASED, false);
        }
    }

    /// The number of items.
    fn n_items(&self) -> (res: usize)
        requires
            self.wf(),
        ensures
            res == self.items().len(),
            res <= i32::MAX,
    {
        self.app_items.len() + sys_items_slice(&self.sys_items).len()
    }

    /// Move the cursor as the pad says: only a direction that was not
    /// pressed in the last frame moves it, see [`spec_move`].
    pub fn handle_pad(&mut self, input: &InputState)
        requires
            old(self).wf(),
            pad_ok(input.pad),
        ensures
            final(self).wf(),
            final(self).dpad == spec_dpad(input.pad),
            ({
                let dir = if spec_dpad(input.pad) != old(self).dpad { spec_dpad(input.pad) } else { DPad4::Center };
                let (sel, moved) = spec_move(old(self).selected as int, old(self).items().len() as int, dir);
                &&& final(self).selected == sel
                &&& final(self).view_flags() == (if moved {
                    with_flag(old(self).view_flags(), MASK_DIRTY, true)
                } else {
                    old(self).view_flags()
                })
            }),
            final(self).app_items == old(self).app_items,
            final(self).sys_items == old(self).sys_items,
            final(self).frames == old(self).frames,
            final(self).actor_idx == old(self).actor_idx,
    {
        let dpad = DPad4::from_pad(input.pad);
        let pressed = if dpad != self.dpad { dpad } else { DPad4::Center };
        self.dpad = dpad;
        match pressed {
            DPad4::Up => {
                if self.selected > 0 {
                    self.selected = self.selected - 1;
                    self.set_dirty(true);
                }
            },
            DPad4::Down => {
                let n_items = self.n_items();
                if self.selected < n_items as i32 - 1 {
                    self.selected = self.selected + 1;
                    self.set_dirty(true);
                }
            },
            DPad4::Left => {
                if self.selected > 0 {
                    self.selected = 0;
                    self.set_dirty(true);
                }
            },
            DPad4::Right => {
                let n_items = self.n_items();
                if self.selected < n_items as i32 - 1 {
                    self.selected = n_items as i32 - 1;
                    self.set_dirty(true);
                }
            },
            DPad4::Center => {},
        }
    }
}

/// The items that `remove(index)` keeps: all but the custom ones with that index.
pub open spec fn retained(s: Seq<MenuItem>, index: u8) -> Seq<MenuItem>
    decreases s.len(),
{
    if s.len() == 0 {
        s
    } else {
        let r = retained(s.drop_last(), index);
        if s.last() matches MenuItem::Custom(i, _) && i == index {
            r
        } else {
            r.push(s.last())
        }
    }
}

/// What the selection button does to the flags: releasing it after a press
/// chooses the focused item and closes the menu. The boolean is true if an
/// item is chosen.
pub open spec fn spec_select(f: MenuFlags, pressed: bool) -> (MenuFlags, bool) {
    if f.select_pressed {
        if !pressed {
            (with_flag(with_flag(f, MASK_SELECT_PRESSED, false), MASK_ACTIVE, false), true)
        } else {
            (f, false)
        }
    } else {
        (with_flag(f, MASK_SELECT_PRESSED, pressed), false)
    }
}

/// The direction that counts as pressed in this frame: only a new one does.
pub open spec fn new_dir(old_dpad: DPad4, pad: Option<Pad>) -> DPad4 {
    if spec_dpad(pad) != old_dpad { spec_dpad(pad) } else { DPad4::Center }
}

/// The flags after the pad handling: the menu is redrawn if the cursor moved.
pub open spec fn flags_after_move(f: MenuFlags, moved: bool) -> MenuFlags {
    if moved { with_flag(f, MASK_DIRTY, true) } else { f }
}

impl Menu {
    /// Remove the custom menu items with the given index.
    pub fn remove(&mut self, index: u8)
        ensures
            final(self).app_items@ == retained(old(self).app_items@, index),
            final(self).sys_items == old(self).sys_items,
            final(self).frames == old(self).frames,
            final(self).selected == old(self).selected,
            final(self).actor_idx == old(self).actor_idx,
            final(self).flags == old(self).flags,
            final(self).dpad == old(self).dpad,
    {
        let ghost all = self.app_items@;
        let ghost mut j: int = 0;
        let mut i: usize = 0;
        while i < self.app_items.len()
            invariant
                0 <= j <= all.len(),
                self.app_items@ == retained(all.take(j), index) + all.skip(j),
                i == retained(all.take(j), index).len(),
                self.sys_items == old(self).sys_items,
                self.frames == old(self).frames,
                self.selected == old(self).selected,
                self.actor_idx == old(self).actor_idx,
                self.flags == old(self).flags,
                self.dpad == old(self).dpad,
            decreases all.len() - j,
        {
            assert(all.take(j + 1).drop_last() =~= all.take(j));
            assert(all.take(j + 1).last() == all[j]);
            assert(self.app_items@[i as int] == all[j]);
            let is_match = match &self.app_items[i] {
                MenuItem::Custom(k, _) => *k == index,
                _ => false,
            };
            if is_match {
                self.app_items.remove(i);
                assert(self.app_items@ =~= retained(all.take(j + 1), index) + all.skip(j + 1));
            } else {
                assert(self.app_items@ =~= retained(all.take(j + 1), index) + all.skip(j + 1));
                i = i + 1;
            }
            proof {
                j = j + 1;
            }
        }
        assert(all.take(j) =~= all);
        assert(self.app_items@ =~= retained(all, index));
    }

    /// Handle the selection button: choosing an item closes the menu,
    /// see [`spec_select`]. Returns the chosen item.
    pub fn handle_select(&mut self, pressed: bool) -> (res: Option<&MenuItem>)
        requires
            old(self).wf(),
        ensures
            final(self).wf(),
            final(self).view_flags() == spec_select(old(self).view_flags(), pressed).0,
            spec_select(old(self).view_flags(), pressed).1 && old(self).selected < old(self).items().len()
                <==> res is Some,
            res matches Some(item) ==> *item == old(self).items()[old(self).selected as int],
            final(self).app_items == old(self).app_items,
            final(self).sys_items == old(self).sys_items,
            final(self).frames == old(self).frames,
            final(self).selected == old(self).selected,
            final(self).actor_idx == old(self).actor_idx,
            final(self).dpad == old(self).dpad,
    {
        if self.flags & MASK_SELECT_PRESSED != 0 {
            if !pressed {
                self.set_flag(MASK_SELECT_PRESSED, false);
                let selected = self.selected as usize;
                self.deactivate();
                if selected < self.app_items.len() {
                    return Some(&self.app_items[selected]);
                }
                let selected = selected - self.app_items.len();
                let sys = sys_items_slice(&self.sys_items);
                if selected < sys.len() {
                    return Some(&sys[selected]);
                }
                return None;
            }
        } else {
            self.set_flag(MASK_SELECT_PRESSED, pressed);
        }
        None
    }

    /// Handle the input of this device for one frame: open or close the menu
    /// and, while it is open, move the cursor and choose an item.
    ///
    /// Returns the chosen item.
    pub fn handle_input(&mut self, input: &Option<InputState>) -> (res: Option<&MenuItem>)
        requires
            old(self).wf(),
            old(self).frames < u32::MAX,
            input matches Some(inp) ==> pad_ok(inp.pad),
        ensures
            final(self).wf(),
            ({
                let inp = match *input {
                    Some(inp) => inp,
                    None => InputState { pad: None, buttons: 0 },
                };
                let f1 = spec_menu_button(old(self).view_flags(), pressed(inp.buttons, BTN_MENU));
                if !f1.active {
                    &&& res is None
                    &&& final(self).view_flags() == f1
                    &&& final(self).frames == old(self).frames
                    &&& final(self).selected == old(self).selected
                    &&& final(self).dpad == old(self).dpad
                } else {
                    let (sel, moved) = spec_move(
                        old(self).selected as int,
                        old(self).items().len() as int,
                        new_dir(old(self).dpad, inp.pad),
                    );
                    let (f3, chosen) = spec_select(
                        flags_after_move(f1, moved),
                        pressed(inp.buttons, BTN_S) || pressed(inp.buttons, BTN_E),
                    );
                    &&& final(self).view_flags() == f3
                    &&& final(self).frames == old(self).frames + 1
                    &&& final(self).selected == sel
                    &&& final(self).dpad == spec_dpad(inp.pad)
                    &&& (res is Some <==> chosen && sel < old(self).items().len())
                    &&& (res matches Some(item) ==> *item == old(self).items()[sel])
                }
            }),
            res is Some ==> !final(self).view_flags().active,
            old(self).selected < old(self).items().len() ==> final(self).selected < final(self).items().len(),
            final(self).app_items == old(self).app_items,
            final(self).sys_items == old(self).sys_items,
            final(self).actor_idx == old(self).actor_idx,
    {
        let def = InputState::empty();
        let input = match input {
            Some(inp) => inp,
            None => &def,
        };
        self.handle_menu_button(input.menu());
        if !self.active() {
            return None;
        }
        self.frames = self.frames + 1;
        self.handle_pad(input);
        self.handle_select(input.s() || input.e())
    }
}

/// The index of the first peer whose current input presses the menu button, or -1.
pub open spec fn first_menu_peer(peers: Seq<FSPeer>) -> int
    decreases peers.len(),
{
    if peers.len() == 0 {
        -1
    } else if current(peers[0]) matches Some(s) && pressed(s.input.buttons, BTN_MENU) {
        0
    } else {
        let i = first_menu_peer(peers.drop_first());
        if i < 0 { -1 } else { i + 1 }
    }
}

proof fn lemma_first_menu_peer(peers: Seq<FSPeer>)
    ensures
        -1 <= first_menu_peer(peers) < peers.len(),
        first_menu_peer(peers) >= 0 ==> (current(peers[first_menu_peer(peers)]) matches Some(s) && pressed(
            s.input.buttons,
            BTN_MENU,
        )),
        forall|k: int| 0 <= k < peers.len() && (first_menu_peer(peers) < 0 || k < first_menu_peer(peers))
            ==> !(current(#[trigger] peers[k]) matches Some(s) && pressed(s.input.buttons, BTN_MENU)),
    decreases peers.len(),
{
    if peers.len() > 0 && !(current(peers[0]) matches Some(s) && pressed(s.input.buttons, BTN_MENU)) {
        lemma_first_menu_peer(peers.drop_first());
        assert forall|k: int| 0 <= k < peers.len() && (first_menu_peer(peers) < 0 || k < first_menu_peer(peers))
            implies !(current(#[trigger] peers[k]) matches Some(s) && pressed(s.input.buttons, BTN_MENU)) by {
            if k > 0 {
                assert(peers[k] == peers.drop_first()[k - 1]);
            }
        }
    }
}

/// The current inputs of all peers have pad coordinates with absolute values.
pub open spec fn peer_pads_ok(peers: Seq<FSPeer>) -> bool {
    forall|k: int| 0 <= k < peers.len() ==> (current(#[trigger] peers[k]) matches Some(s) ==> pad_ok(s.input.pad))
}

impl Menu {
    /// Handle the inputs of all peers of a multiplayer game for one frame.
    ///
    /// The first peer that presses the menu button opens (or closes) the menu for
    /// everyone; while the menu is open, only that peer moves the cursor and chooses.
    pub fn handle_net_input(&mut self, syncer: &FrameSyncer) -> (res: Option<&MenuItem>)
        requires
            old(self).wf(),
            syncer.peers@.len() <= 256,
            peer_pads_ok(syncer.peers@),
        ensures
            final(self).wf(),
            ({
                let k = first_menu_peer(syncer.peers@);
                let f1 = spec_menu_button(old(self).view_flags(), k >= 0);
                if !f1.active {
                    &&& res is None
                    &&& final(self).view_flags() == f1
                    &&& final(self).actor_idx == old(self).actor_idx
                    &&& final(self).selected == old(self).selected
                } else {
                    let f2 = if !old(self).view_flags().active {
                        with_flag(f1, MASK_ACTOR, k >= 0 && syncer.peers@[k].addr is None)
                    } else {
                        f1
                    };
                    let actor = if !old(self).view_flags().active { (if k >= 0 { k } else { 0 }) } else { old(
                        self,
                    ).actor_idx as int };
                    &&& final(self).actor_idx == actor
                    &&& actor >= syncer.peers@.len() ==> {
                        &&& res is None
                        &&& final(self).view_flags() == f2
                        &&& final(self).selected == old(self).selected
                    }
                    &&& actor < syncer.peers@.len() ==> match current(syncer.peers@[actor]) {
                        None => {
                            &&& res is None
                            &&& final(self).view_flags() == f2
                            &&& final(self).selected == old(self).selected
                        },
                        Some(s) => {
                            let inp = spec_input_state(s.input);
                            let (sel, moved) = spec_move(
                                old(self).selected as int,
                                old(self).items().len() as int,
                                new_dir(old(self).dpad, inp.pad),
                            );
                            let (f3, chosen) = spec_select(
                                flags_after_move(f2, moved),
                                pressed(inp.buttons, BTN_S) || pressed(inp.buttons, BTN_E),
                            );
                            &&& final(self).view_flags() == f3
                            &&& final(self).selected == sel
                            &&& (res is Some <==> chosen && sel < old(self).items().len())
                            &&& (res matches Some(item) ==> *item == old(self).items()[sel])
                        },
                    }
                }
            }),
            final(self).app_items == old(self).app_items,
            final(self).sys_items == old(self).sys_items,
            final(self).frames == old(self).frames,
    {
        proof {
            lemma_first_menu_peer(syncer.peers@);
        }
        let ghost k = first_menu_peer(syncer.peers@);
        let n = syncer.peers.len();
        let mut menu_pressed = false;
        let mut actor = false;
        let mut actor_idx: u8 = 0;
        let mut i: usize = 0;
        while i < n
            invariant_except_break
                k >= 0 ==> i <= k,
                !menu_pressed,
                !actor,
                actor_idx == 0,
            invariant
                n == syncer.peers@.len(),
                n <= 256,
                0 <= i <= n,
                -1 <= k < n,
                k == first_menu_peer(syncer.peers@),
                forall|j: int| 0 <= j < n && (k < 0 || j < k)
                    ==> !(current(#[trigger] syncer.peers@[j]) matches Some(s) && pressed(s.input.buttons, BTN_MENU)),
                k >= 0 ==> (current(syncer.peers@[k]) matches Some(s) && pressed(s.input.buttons, BTN_MENU)),
            ensures
                menu_pressed == (k >= 0),
                menu_pressed ==> actor_idx == k && actor == (syncer.peers@[k].addr is None),
                !menu_pressed ==> actor_idx == 0 && !actor,
            decreases n - i,
        {
            if let Some(state) = syncer.peers[i].states.get_current() {
                if state.input.buttons & BTN_MENU != 0 {
                    assert(i == k);
                    menu_pressed = true;
                    actor = syncer.peers[i].addr.is_none();
                    actor_idx = i as u8;
                    break;
                }
            }
            i = i + 1;
        }
        let was_active = self.active();
        self.handle_menu_button(menu_pressed);
        if !self.active() {
            return None;
        }
        if !was_active {
            self.set_actor(actor);
            self.actor_idx = actor_idx;
        }
        let idx = self.actor_idx as usize;
        if idx >= syncer.peers.len() {
            return None;
        }
        let state = match syncer.peers[idx].states.get_current() {
            Some(s) => s,
            None => return None,
        };
        let input = state.input.to_input_state();
        self.handle_pad(&input);
        self.handle_select(input.s() || input.e())
    }
}

} // verus!
