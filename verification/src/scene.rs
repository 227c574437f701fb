use vstd::prelude::*;
use crate::connector::{ConnectStatus, Connector, info_index, find_info};
use crate::input::{InputState, pressed, BTN_S, BTN_E};
use crate::net::{elapsed, Addr};

verus! {

/// The buttons that the connecting scene looks at.
#[derive(Debug, Clone, Copy, PartialEq, Eq, Structural)]
pub struct Buttons {
    pub a: bool,
    pub b: bool,
    /// Any of the four face buttons.
    pub any: bool,
}

/// The buttons of the input: `a` is `S`, `b` is `E`, `any` is any of the four face buttons.
pub open spec fn spec_buttons(input: Option<InputState>) -> Buttons {
    match input {
        Some(i) => Buttons { a: pressed(i.buttons, BTN_S), b: pressed(i.buttons, BTN_E), any: i.buttons & 0b1111 != 0 },
        None => Buttons { a: false, b: false, any: false },
    }
}

impl Buttons {
    pub fn new(input: &Option<InputState>) -> (res: Self)
        ensures
            res == spec_buttons(*input),
    {
        match input {
            Some(input) => Buttons { a: input.s(), b: input.e(), any: (input.buttons & 0b1111) != 0 },
            None => Buttons { a: false, b: false, any: false },
        }
    }
}

/// The name shown for a device in the list: `<empty>` for a device without a name.
pub fn shown_name(name: &str) -> (res: &str)
    ensures
        res@ == (if name@.len() == 0 { "<empty>"@ } else { name@ }),
{
    if name.unicode_len() == 0 {
        "<empty>"
    } else {
        name
    }
}

/// The scene shown while devices connect for multiplayer.
pub struct ConnectScene {
    /// The number of updates so far.
    pub frame: usize,
    /// The buttons on the last update.
    pub buttons: Buttons,
    /// Looking for devices is stopped.
    pub stopped: bool,
    /// The hash of the scene state. If hash changes, scene needs to be re-rendered.
    pub hash: usize,
    /// True if the scene was rendered at least once.
    ///
    /// It is also set to false when the scan for devices is stopped
    /// to force clearing the screen. It's needed because the scene
    /// in these states is slightly different.
    pub rendered: bool,
}

/// What an update of the connecting scene decides, given the buttons before
/// and now: all actions happen on button release, not press. Releasing any button
/// stops the scan; once stopped, releasing `A` finishes and releasing `B` cancels.
/// Returns the new `stopped` flag and the status.
pub open spec fn spec_scene_update(stopped: bool, old: Buttons, new: Buttons) -> (bool, Option<ConnectStatus>) {
    if new.any {
        (stopped, None)
    } else if !stopped && old.any {
        (true, Some(ConnectStatus::Stopped))
    } else if stopped && !new.a && old.a {
        (stopped, Some(ConnectStatus::Finished))
    } else if stopped && !new.b && old.b {
        (stopped, Some(ConnectStatus::Cancelled))
    } else {
        (stopped, None)
    }
}

impl ConnectScene {
    pub fn new() -> (res: Self)
        ensures
            res.frame == 0,
            res.buttons == spec_buttons(None),
            !res.stopped,
            res.hash == 0,
            !res.rendered,
    {
        ConnectScene { frame: 0, buttons: Buttons::new(&None), stopped: false, hash: 0, rendered: false }
    }

    /// Force the scene to redraw the UI.
    pub fn redraw(&mut self)
        ensures
            !final(self).rendered,
            final(self).hash == 0,
            final(self).frame == old(self).frame,
            final(self).buttons == old(self).buttons,
            final(self).stopped == old(self).stopped,
    {
        self.rendered = false;
        self.hash = 0;
    }

    /// Handle the input of one frame, see [`spec_scene_update`].
    pub fn update(&mut self, input: &Option<InputState>) -> (res: Option<ConnectStatus>)
        requires
            old(self).frame < usize::MAX,
        ensures
            ({
                let (stopped, status) = spec_scene_update(old(self).stopped, old(self).buttons, spec_buttons(*input));
                &&& res == status
                &&& final(self).stopped == stopped
            }),
            final(self).frame == old(self).frame + 1,
            final(self).buttons == spec_buttons(*input),
            final(self).hash == old(self).hash,
            final(self).rendered == (old(self).rendered && !(res == Some(ConnectStatus::Stopped))),
    {
        let buttons = Buttons::new(input);
        let res = self.update_inner(&buttons);
        self.buttons = buttons;
        res
    }

    fn update_inner(&mut self, new_buttons: &Buttons) -> (res: Option<ConnectStatus>)
        requires
            old(self).frame < usize::MAX,
        ensures
            ({
                let (stopped, status) = spec_scene_update(old(self).stopped, old(self).buttons, *new_buttons);
                &&& res == status
                &&& final(self).stopped == stopped
            }),
            final(self).frame == old(self).frame + 1,
            final(self).buttons == old(self).buttons,
            final(self).hash == old(self).hash,
            final(self).rendered == (old(self).rendered && !(res == Some(ConnectStatus::Stopped))),
    {
        self.frame = self.frame + 1;
        let old_buttons = self.buttons;
        // If a button is pressed, just track it and return.
        // All actions the module does happen on button release, not press.
        if new_buttons.any {
            return None;
        }

        // Connecting is not stopped, a button was pressed
        // but is released now. Stop connecting.
        if !self.stopped && old_buttons.any {
            self.stopped = true;
            self.rendered = false;
            return Some(ConnectStatus::Stopped);
        }

        // Connecting is stopped. The user either confirms that all
        // connected devices are good or cancels.
        if self.stopped {
            if !new_buttons.a && old_buttons.a {
                return Some(ConnectStatus::Finished);
            }
            if !new_buttons.b && old_buttons.b {
                return Some(ConnectStatus::Cancelled);
            }
        }
        None
    }

    /// The state hash: if it changes, the UI must be re-rendered.
    pub fn calculate_hash(&self, connector: &Connector) -> (res: usize)
        requires
            connector.wf(),
        ensures
            res == connector.peer_addrs@.len() + connector.peer_infos@.len() + self.frame / 15 + (if self.buttons.any {
                32int
            } else {
                0
            }) + (if self.buttons.a { 64int } else { 0 }) + (if self.buttons.a { 128int } else { 0 }),
    {
        let mut hash: usize = 0;
        hash = hash + connector.peer_addrs.len();
        hash = hash + connector.peer_infos.len();
        hash = hash + self.frame / 15;
        hash = hash + (if self.buttons.any { 32 } else { 0 });
        hash = hash + (if self.buttons.a { 64 } else { 0 });
        hash = hash + (if self.buttons.a { 128 } else { 0 });
        hash
    }

    /// The devices listed as `???`: while the scan runs, those that said hello
    /// but haven't introduced themselves yet, in the order they said hello.
    /// None once the scan is stopped, since those devices are then dropped.
    pub fn unnamed_peers(&self, connector: &Connector) -> (res: Vec<Addr>)
        ensures
            res@ == (if self.stopped {
                Seq::<Addr>::empty()
            } else {
                connector.peer_addrs@.filter(|a: Addr| info_index(connector.peer_infos@, a) < 0)
            }),
    {
        let mut out: Vec<Addr> = Vec::new();
        if self.stopped {
            return out;
        }
        let addrs = &connector.peer_addrs;
        let ghost pred = |a: Addr| info_index(connector.peer_infos@, a) < 0;
        let n = addrs.len();
        let mut i: usize = 0;
        while i < n
            invariant
                n == addrs@.len(),
                0 <= i <= n,
                pred == (|a: Addr| info_index(connector.peer_infos@, a) < 0),
                out@ == addrs@.subrange(0, i as int).filter(pred),
            decreases n - i,
        {
            let addr = addrs[i];
            proof {
                assert(addrs@.subrange(0, i + 1) =~= addrs@.subrange(0, i as int).push(addr));
                addrs@.subrange(0, i as int).lemma_filter_push(addr, pred);
            }
            if find_info(&connector.peer_infos, addr).is_none() {
                out.push(addr);
            }
            i = i + 1;
        }
        assert(addrs@.subrange(0, n as int) =~= addrs@);
        out
    }

    /// The hint at the bottom of the scene: how to stop the scan, and once it is
    /// stopped, how to go on (only if some device introduced itself) or cancel.
    pub fn hint(&self, has_peers: bool) -> (res: &'static str)
        ensures
            res@ == (if !self.stopped {
                "(press any button to stop)"@
            } else if has_peers {
                "press S to continue / E to cancel"@
            } else {
                "press E to cancel"@
            }),
    {
        if self.stopped {
            if has_peers {
                "press S to continue / E to cancel"
            } else {
                "press E to cancel"
            }
        } else {
            "(press any button to stop)"
        }
    }

    /// The part of "Connecting..." drawn in the primary color over the muted one,
    /// sliced over time to show that the device is not frozen: the number of
    /// characters it is shifted by, and the byte range of the text drawn.
    ///
    /// Every 15 frames one more character is revealed, then hidden again from the left.
    pub fn connecting_slice(&self) -> (res: (i32, usize, usize))
        requires
            self.frame / 15 <= i32::MAX,
        ensures
            ({
                let q = self.frame / 15;
                if q % 28 >= 14 {
                    res == ((q % 14) as i32, (q % 14) as usize, 13usize)
                } else {
                    res == (0i32, 0usize, (q % 14) as usize)
                }
            }),
    {
        let quarter_second = self.frame / 15;
        if quarter_second % 28 >= 14 {
            ((quarter_second as i32) % 14, quarter_second % 14, 13)
        } else {
            (0, 0, quarter_second % 14)
        }
    }
}

/// How long (in milliseconds) the error popup waits before its button can be pressed.
pub const BTN_DELAY: u64 = 500;

/// An alert popup window showing an error message.
pub struct ErrorScene {
    /// The message, as bytes of UTF-8 text.
    pub msg: Vec<u8>,
    /// The moment (in milliseconds) the popup was first updated.
    pub start: Option<u64>,
    pub showed_msg: bool,
    pub showed_btn: bool,
    /// The confirmation button can be pressed.
    pub enabled_btn: bool,
    /// The buttons pressed on the last update.
    pub buttons: u8,
}

impl ErrorScene {
    pub fn new(msg: Vec<u8>) -> (res: Self)
        ensures
            res.msg@ == msg@,
            res.start is None,
            !res.showed_msg,
            !res.showed_btn,
            !res.enabled_btn,
            res.buttons == 0,
    {
        ErrorScene { msg, start: None, showed_msg: false, showed_btn: false, enabled_btn: false, buttons: 0 }
    }

    /// Handle one frame: `now` is the time in milliseconds and `buttons` the pressed buttons.
    ///
    /// The button becomes active [`BTN_DELAY`] after the first update.
    /// Returns true when, with the button active, all buttons are released after some were pressed.
    pub fn update(&mut self, now: u64, buttons: u8) -> (res: bool)
        ensures
            ({
                let start = match old(self).start {
                    Some(s) => s,
                    None => now,
                };
                let enables = !old(self).enabled_btn && elapsed(now, start) > BTN_DELAY;
                let enabled = old(self).enabled_btn || enables;
                let b = buttons & 0b11111;
                &&& final(self).start == (if old(self).enabled_btn { old(self).start } else { Some(start) })
                &&& final(self).enabled_btn == enabled
                &&& final(self).showed_btn == (old(self).showed_btn && !enables)
                &&& res == (enabled && old(self).buttons != 0 && b == 0)
                &&& final(self).buttons == (if enabled && !res { b } else { old(self).buttons })
            }),
            final(self).msg == old(self).msg,
            final(self).showed_msg == old(self).showed_msg,
    {
        // Check if the confirmation button is active.
        if !self.enabled_btn {
            let start = match self.start {
                Some(start) => start,
                None => {
                    self.start = Some(now);
                    now
                },
            };
            if now.saturating_sub(start) > BTN_DELAY {
                self.enabled_btn = true;
                self.showed_btn = false;
            }
        }

        // If the button is active, check if the user pressed and released it.
        if self.enabled_btn {
            let buttons = buttons & 0b11111;
            if self.buttons != 0 && buttons == 0 {
                return true;
            }
            self.buttons = buttons;
        }
        false
    }
}

/// What `render_plan` decides to draw for the popup in the given state.
pub open spec fn spec_error_draw(s: ErrorScene) -> ErrorDraw {
    ErrorDraw {
        message: !s.showed_msg,
        button: if s.showed_btn { None::<bool> } else { Some(s.enabled_btn) },
    }
}

/// Once the popup is drawn, it is not drawn again: in the next frame, after an
/// update (`after` keeps the message flag and clears the button flag only when the
/// update activates the button, as `update` does), the message is not drawn, and
/// the button is drawn again exactly when the update activated it, then as active.
pub proof fn law_error_popup_drawn_once(drawn: ErrorScene, after: ErrorScene, activates: bool)
    requires
        drawn.showed_msg,
        drawn.showed_btn,
        after.showed_msg == drawn.showed_msg,
        after.showed_btn == (drawn.showed_btn && !activates),
        activates ==> after.enabled_btn,
    ensures
        !spec_error_draw(after).message,
        spec_error_draw(after).button == (if activates { Some(true) } else { None::<bool> }),
{
}

/// What to draw of the error popup in a frame.
#[derive(Debug, Clone, Copy, PartialEq, Eq, Structural)]
pub struct ErrorDraw {
    /// Clear the screen and draw the message (once).
    pub message: bool,
    /// Draw the confirmation button, active or not (once, and again when it becomes active).
    pub button: Option<bool>,
}

impl ErrorScene {
    /// Decide what to draw of the popup: the message, once, wrapped into lines
    /// (see [`wrap_text`]); the button when it isn't drawn yet in its current state.
    pub fn render_plan(&mut self) -> (res: ErrorDraw)
        ensures
            res == spec_error_draw(*old(self)),
            res.message == !old(self).showed_msg,
            res.button == (if old(self).showed_btn { None::<bool> } else { Some(old(self).enabled_btn) }),
            final(self).msg@ == (if old(self).showed_msg { old(self).msg@ } else { wrapped(old(self).msg@).0 }),
            final(self).showed_msg,
            final(self).showed_btn,
            final(self).start == old(self).start,
            final(self).enabled_btn == old(self).enabled_btn,
            final(self).buttons == old(self).buttons,
    {
        let message = !self.showed_msg;
        if message {
            wrap_text(self.msg.as_mut_slice());
            self.showed_msg = true;
        }
        let button = if self.showed_btn { None } else { Some(self.enabled_btn) };
        self.showed_btn = true;
        ErrorDraw { message, button }
    }
}

/// Scan the text for its lines, as `str::lines` splits them: at line breaks, a
/// carriage return right before a line break not counting. Gives the length of the
/// longest finished line, the length of the open line, and whether the open line
/// ends with a carriage return.
pub open spec fn line_scan(t: Seq<u8>) -> (int, int, bool)
    decreases t.len(),
{
    if t.len() == 0 {
        (0, 0, false)
    } else {
        let (best, cur, cr) = line_scan(t.drop_last());
        let c = t.last();
        if c == 10 {
            let l = cur - (if cr { 1int } else { 0 });
            (if l > best { l } else { best }, 0, false)
        } else {
            (best, cur + 1, c == 13)
        }
    }
}

/// The length in bytes of the longest line of the text (0 for no text).
pub open spec fn longest_line(t: Seq<u8>) -> int {
    let (best, cur, _) = line_scan(t);
    if cur > best { cur } else { best }
}

proof fn lemma_line_scan_bounds(t: Seq<u8>)
    ensures
        0 <= line_scan(t).0 <= t.len(),
        0 <= line_scan(t).1 <= t.len(),
        line_scan(t).2 ==> line_scan(t).1 >= 1,
    decreases t.len(),
{
    if t.len() > 0 {
        lemma_line_scan_bounds(t.drop_last());
    }
}

/// The length of the longest line of the text, see [`longest_line`].
pub fn longest_line_len(text: &[u8]) -> (res: usize)
    ensures
        res == longest_line(text@),
{
    let n = text.len();
    let mut best: usize = 0;
    let mut cur: usize = 0;
    let mut cr = false;
    let mut k: usize = 0;
    while k < n
        invariant
            n == text@.len(),
            0 <= k <= n,
            (best as int, cur as int, cr) == line_scan(text@.subrange(0, k as int)),
        decreases n - k,
    {
        proof {
            assert(text@.subrange(0, k + 1).drop_last() =~= text@.subrange(0, k as int));
            lemma_line_scan_bounds(text@.subrange(0, k as int));
        }
        let c = text[k];
        if c == 10 {
            let l = if cr { cur - 1 } else { cur };
            if l > best {
                best = l;
            }
            cur = 0;
            cr = false;
        } else {
            cur = cur + 1;
            cr = c == 13;
        }
        k = k + 1;
    }
    assert(text@.subrange(0, n as int) =~= text@);
    if cur > best {
        cur
    } else {
        best
    }
}

/// One byte of line wrapping: `i` bytes are on the line so far. A space after
/// the 20th byte of a line becomes a line break. Returns the new byte and the
/// number of bytes on the line after it.
pub open spec fn wrap_step(c: u8, i: int) -> (u8, int) {
    let i1 = i + 1;
    let c1: u8 = if i1 > 20 && c == 32 { 10 } else { c };
    (c1, if c1 == 10 { 0 } else { i1 })
}

/// The wrapped bytes and the length of the last line.
pub open spec fn wrapped(b: Seq<u8>) -> (Seq<u8>, int)
    decreases b.len(),
{
    if b.len() == 0 {
        (b, 0)
    } else {
        let (prev, i) = wrapped(b.drop_last());
        let (c, i1) = wrap_step(b.last(), i);
        (prev.push(c), i1)
    }
}

proof fn lemma_wrapped_len(b: Seq<u8>)
    ensures
        wrapped(b).0.len() == b.len(),
        0 <= wrapped(b).1 <= b.len(),
    decreases b.len(),
{
    if b.len() > 0 {
        lemma_wrapped_len(b.drop_last());
    }
}

/// Wrapping keeps the length of the text and changes no byte but a space,
/// which it may turn into a line break.
pub proof fn law_wrap_only_breaks_spaces(b: Seq<u8>)
    ensures
        wrapped(b).0.len() == b.len(),
        forall|i: int| 0 <= i < b.len() ==> {
            ||| #[trigger] wrapped(b).0[i] == b[i]
            ||| (b[i] == 32 && wrapped(b).0[i] == 10)
        },
    decreases b.len(),
{
    lemma_wrapped_len(b);
    if b.len() > 0 {
        law_wrap_only_breaks_spaces(b.drop_last());
        assert forall|i: int| 0 <= i < b.len() implies {
            ||| #[trigger] wrapped(b).0[i] == b[i]
            ||| (b[i] == 32 && wrapped(b).0[i] == 10)
        } by {
            if i < b.len() - 1 {
                assert(wrapped(b.drop_last()).0[i] == wrapped(b).0[i]);
                assert(b.drop_last()[i] == b[i]);
            }
        }
    }
}

/// Split long lines of text into several lines: a space after the 20th byte
/// of a line becomes a line break.
pub fn wrap_text(text: &mut [u8])
    ensures
        final(text)@ == wrapped(old(text)@).0,
{
    let n = text.len();
    let ghost orig = text@;
    let mut i: usize = 0;
    let mut k: usize = 0;
    while k < n
        invariant
            n == text@.len(),
            n == orig.len(),
            0 <= k <= n,
            i <= k,
            (text@.subrange(0, k as int), i as int) == wrapped(orig.subrange(0, k as int)),
            text@.subrange(k as int, n as int) == orig.subrange(k as int, n as int),
        decreases n - k,
    {
        proof {
            assert(orig.subrange(0, k + 1).drop_last() =~= orig.subrange(0, k as int));
            assert(orig.subrange(0, k + 1).last() == orig[k as int]);
            assert(text@[k as int] == orig[k as int]) by {
                assert(text@.subrange(k as int, n as int)[0] == orig.subrange(k as int, n as int)[0]);
            }
        }
        let ghost before = text@;
        let c = text[k];
        i = i + 1;
        if i > 20 && c == 32 {
            text[k] = 10;
        }
        if text[k] == 10 {
            i = 0;
        }
        k = k + 1;
        proof {
            assert(text@.subrange(0, k as int) =~= text@.subrange(0, k - 1).push(text@[k - 1]));
            assert forall|j: int| k <= j < n implies text@[j] == orig[j] by {
                assert(text@[j] == before[j]);
                assert(before.subrange(k - 1, n as int)[j - (k - 1)] == orig.subrange(k - 1, n as int)[j - (k - 1)]);
            }
            assert(text@.subrange(k as int, n as int) =~= orig.subrange(k as int, n as int));
        }
    }
    proof {
        assert(text@.subrange(0, n as int) =~= text@);
        assert(orig.subrange(0, n as int) =~= orig);
    }
}

} // verus!
