use vstd::prelude::*;

verus! {

/// The finger position on the touch pad.
#[derive(Debug, Clone, Copy, PartialEq, Eq, Structural)]
pub struct Pad {
    pub x: i16,
    pub y: i16,
}

/// The state of the device input: the touch pad and the buttons.
///
/// The bits of `buttons`, starting with the lowest one, are the buttons
/// `S` (A), `E` (B), `W` (X), `N` (Y), and `menu`.
#[derive(Debug, Clone, Copy, PartialEq, Eq, Structural)]
pub struct InputState {
    pub pad: Option<Pad>,
    pub buttons: u8,
}

/// True if the button with the given bit mask is pressed.
pub open spec fn pressed(buttons: u8, mask: u8) -> bool {
    buttons & mask != 0
}

/// The bit of the `S` (A) button.
pub const BTN_S: u8 = 0b1;
/// The bit of the `E` (B) button.
pub const BTN_E: u8 = 0b10;
/// The bit of the `W` (X) button.
pub const BTN_W: u8 = 0b100;
/// The bit of the `N` (Y) button.
pub const BTN_N: u8 = 0b1000;
/// The bit of the menu button.
pub const BTN_MENU: u8 = 0b1_0000;

impl InputState {
    /// No pad touch and no buttons pressed.
    pub fn empty() -> (res: Self)
        ensures
            res.pad is None,
            res.buttons == 0,
    {
        InputState { pad: None, buttons: 0 }
    }

    /// True if the `S` (A) button is pressed.
    pub fn s(&self) -> (res: bool)
        ensures
            res == pressed(self.buttons, BTN_S),
    {
        self.buttons & BTN_S != 0
    }

    /// True if the `E` (B) button is pressed.
    pub fn e(&self) -> (res: bool)
        ensures
            res == pressed(self.buttons, BTN_E),
    {
        self.buttons & BTN_E != 0
    }

    /// True if the `W` (X) button is pressed.
    pub fn w(&self) -> (res: bool)
        ensures
            res == pressed(self.buttons, BTN_W),
    {
        self.buttons & BTN_W != 0
    }

    /// True if the `N` (Y) button is pressed.
    pub fn n(&self) -> (res: bool)
        ensures
            res == pressed(self.buttons, BTN_N),
    {
        self.buttons & BTN_N != 0
    }

    /// True if the menu button is pressed.
    pub fn menu(&self) -> (res: bool)
        ensures
            res == pressed(self.buttons, BTN_MENU),
    {
        self.buttons & BTN_MENU != 0
    }
}

/// The pad position packed into one number: x in the high 16 bits and y in the
/// low 16 bits, both as 16-bit two's complement; `0xffff` if the pad is not touched.
pub open spec fn packed_pad(pad: Option<Pad>) -> u32 {
    match pad {
        None => 0xffff,
        Some(p) => ((((p.x as u16) as u32) << 16u32) | ((p.y as u16) as u32)) as u32,
    }
}

/// Get the finger position on the pad, packed as [`packed_pad`] says.
///
/// Both coordinates are packed into a single number because most of the wasm
/// compilers still don't support multiple return values.
pub fn read_pad(input: &Option<InputState>) -> (res: u32)
    ensures
        res == match *input {
            None => 0xffffu32,
            Some(i) => packed_pad(i.pad),
        },
{
    let input = match input {
        None => return 0xffff,
        Some(i) => i,
    };
    match input.pad {
        None => 0xffff,
        Some(pad) => {
            let x = pad.x as u16 as u32;
            let y = pad.y as u16 as u32;
            (x << 16u32) | y
        },
    }
}

/// Get the map of the pressed buttons.
///
/// Bit 0 represents `S` (A), bit 1 `E` (B), and so on in order:
/// `S`, `E`, `W`, `N`, and `menu`.
pub fn read_buttons(input: &Option<InputState>) -> (res: u32)
    ensures
        res == match *input {
            None => 0u32,
            Some(i) => i.buttons as u32,
        },
{
    match input {
        None => 0,
        Some(i) => i.buttons as u32,
    }
}

} // verus!
