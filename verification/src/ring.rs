use vstd::prelude::*;

verus! {

/// Number of frames the ring keeps.
pub const BUF_SIZE: usize = 5;

/// How far (in frames) from the current frame a value may be stored or read.
pub const MAX_DRIFT: u32 = 2;

/// Distance between two frame numbers.
pub open spec fn frame_dist(a: u32, b: u32) -> int {
    if a >= b { a - b } else { b - a }
}

/// True if `frame` is close enough to `current` to be stored or read.
pub open spec fn in_window(current: u32, frame: u32) -> bool {
    frame_dist(current, frame) <= MAX_DRIFT
}

/// The slot of the ring used by the given frame.
pub open spec fn slot_of(frame: u32) -> int {
    (frame as int) % (BUF_SIZE as int)
}

/// Circular buffer designed to keep a short history and a short look-ahead
/// for network device state updates. The goal is to be able to replay recent frames
/// as well as not to lose frames received earlier than expected.
pub struct RingBuf<T: Copy> {
    /// The current frame.
    pub frame: u32,
    /// The circular buffer of values for each frame.
    pub data: [Option<(u32, T)>; BUF_SIZE],
}

impl<T: Copy> RingBuf<T> {
    /// The raw slots of the ring, each tagged with the frame it was stored for.
    pub open spec fn slots(&self) -> Seq<Option<(u32, T)>> {
        self.data@
    }

    /// The value stored for `frame`, as `get` reports it.
    pub open spec fn spec_get(&self, frame: u32) -> Option<T> {
        slot_get(self.slots(), self.frame, frame)
    }

    pub fn new() -> (res: Self)
        ensures
            res.frame == 0,
            forall|i: int| 0 <= i < BUF_SIZE ==> #[trigger] res.slots()[i] is None,
            forall|f: u32| #[trigger] res.spec_get(f) is None,
    {
        let res = Self { frame: 0, data: [None, None, None, None, None] };
        assert forall|f: u32| #[trigger] res.spec_get(f) is None by {
            assert(0 <= slot_of(f) < BUF_SIZE);
        }
        res
    }

    /// Increment the current frame number.
    pub fn advance(&mut self)
        requires
            old(self).frame < u32::MAX,
        ensures
            final(self).frame == old(self).frame + 1,
            final(self).slots() == old(self).slots(),
    {
        self.frame = self.frame + 1;
    }

    /// Set the value for the given frame.
    ///
    /// Frames inserted too far ahead or behind the current frame will be discarded.
    pub fn insert(&mut self, frame: u32, val: T)
        ensures
            final(self).frame == old(self).frame,
            final(self).slots() == inserted(old(self).slots(), old(self).frame, frame, val),
    {
        if abs_diff(self.frame, frame) > MAX_DRIFT {
            return;
        }
        let index = frame as usize % BUF_SIZE;
        self.data[index] = Some((frame, val));
    }

    /// Get the value for the current frame.
    pub fn get_current(&self) -> (res: Option<T>)
        ensures
            res == self.spec_get(self.frame),
    {
        self.get(self.frame)
    }

    /// Get the value for the given frame.
    ///
    /// The given frame must be not too far ahead or behind the current frame
    /// and must have been inserted earlier into the buffer.
    /// If any of this isn't true, None is returned.
    pub fn get(&self, frame: u32) -> (res: Option<T>)
        ensures
            res == self.spec_get(frame),
    {
        if abs_diff(self.frame, frame) > MAX_DRIFT {
            return None;
        }
        let index = frame as usize % BUF_SIZE;
        match self.data[index] {
            Some((act_frame, val)) => {
                if act_frame != frame {
                    None
                } else {
                    Some(val)
                }
            },
            None => None,
        }
    }
}

/// The value that the slots hold for `frame` when the ring is at frame `current`:
/// nothing for a frame outside the window, else what its slot holds if the slot
/// was stored for that very frame.
pub open spec fn slot_get<T>(slots: Seq<Option<(u32, T)>>, current: u32, frame: u32) -> Option<T> {
    if !in_window(current, frame) {
        None
    } else {
        match slots[slot_of(frame)] {
            Some((tag, val)) => if tag == frame { Some(val) } else { None },
            None => None,
        }
    }
}

/// Read after write on the slots of a ring.
pub proof fn lemma_slot_get_inserted<T>(slots: Seq<Option<(u32, T)>>, current: u32, frame: u32, val: T, other: u32)
    requires
        slots.len() == BUF_SIZE,
    ensures
        slot_get(inserted(slots, current, frame, val), current, frame)
            == (if in_window(current, frame) { Some(val) } else { slot_get(slots, current, frame) }),
        other != frame ==> slot_get(inserted(slots, current, frame, val), current, other)
            == slot_get(slots, current, other),
{
    assert(0 <= slot_of(frame) < BUF_SIZE);
    assert(0 <= slot_of(other) < BUF_SIZE);
    if other != frame && in_window(current, frame) && in_window(current, other) {
        // Two different frames within the window are less than the ring size apart.
        assert(slot_of(other) != slot_of(frame));
    }
}

/// What `insert` does to the slots: the slot of a frame near the current one
/// is overwritten, any other insert is dropped.
pub open spec fn inserted<T>(slots: Seq<Option<(u32, T)>>, current: u32, frame: u32, val: T) -> Seq<Option<(u32, T)>> {
    if in_window(current, frame) {
        slots.update(slot_of(frame), Some((frame, val)))
    } else {
        slots
    }
}

/// Read after write: after `insert(frame, val)`, `get(frame)` gives `val` if the frame
/// is near the current one, and `get` of every other frame gives what it gave before.
pub proof fn law_get_after_insert<T: Copy>(before: RingBuf<T>, after: RingBuf<T>, frame: u32, val: T, other: u32)
    requires
        after.frame == before.frame,
        after.slots() == inserted(before.slots(), before.frame, frame, val),
    ensures
        after.spec_get(frame) == (if in_window(before.frame, frame) { Some(val) } else { before.spec_get(frame) }),
        other != frame ==> after.spec_get(other) == before.spec_get(other),
{
    lemma_slot_get_inserted(before.slots(), before.frame, frame, val, other);
}

/// Advancing to the next frame keeps the value of every frame that stays in the window.
pub proof fn law_advance_keeps<T: Copy>(before: RingBuf<T>, after: RingBuf<T>, frame: u32)
    requires
        after.frame == before.frame + 1,
        after.slots() == before.slots(),
        in_window(after.frame, frame),
        in_window(before.frame, frame),
    ensures
        after.spec_get(frame) == before.spec_get(frame),
{
}

/// Nothing is read for a frame that is more than two frames away from the current one.
pub proof fn law_get_outside_window<T: Copy>(ring: RingBuf<T>, frame: u32)
    requires
        !in_window(ring.frame, frame),
    ensures
        ring.spec_get(frame) is None,
{
}

/// The absolute difference of two frame numbers.
fn abs_diff(a: u32, b: u32) -> (res: u32)
    ensures
        res == frame_dist(a, b),
{
    if a >= b {
        a - b
    } else {
        b - a
    }
}

/// One call on a ring: `insert(frame, val)` or `advance()`.
pub enum RingOp<T> {
    Insert(u32, T),
    Advance,
}

/// The current frame after the calls, starting from a new ring (frame 0).
pub open spec fn frame_after<T>(ops: Seq<RingOp<T>>) -> int
    decreases ops.len(),
{
    if ops.len() == 0 {
        0
    } else {
        match ops.last() {
            RingOp::Advance => frame_after(ops.drop_last()) + 1,
            RingOp::Insert(_, _) => frame_after(ops.drop_last()),
        }
    }
}

/// The slots after the calls, starting from a new ring, by the contracts of
/// `new`, `insert`, and `advance`.
pub open spec fn slots_after<T>(ops: Seq<RingOp<T>>) -> Seq<Option<(u32, T)>>
    decreases ops.len(),
{
    if ops.len() == 0 {
        Seq::new(BUF_SIZE as nat, |i: int| None)
    } else {
        let prev = ops.drop_last();
        match ops.last() {
            RingOp::Advance => slots_after(prev),
            RingOp::Insert(g, w) => inserted(slots_after(prev), frame_after(prev) as u32, g, w),
        }
    }
}

/// The latest insert among the calls that the ring accepted (made while its frame
/// was within two frames of the current one) and that uses slot `s`.
pub open spec fn latest_in_slot<T>(ops: Seq<RingOp<T>>, s: int) -> Option<(u32, T)>
    decreases ops.len(),
{
    if ops.len() == 0 {
        None
    } else {
        let prev = ops.drop_last();
        match ops.last() {
            RingOp::Advance => latest_in_slot(prev, s),
            RingOp::Insert(g, w) => if in_window(frame_after(prev) as u32, g) && slot_of(g) == s {
                Some((g, w))
            } else {
                latest_in_slot(prev, s)
            },
        }
    }
}

/// The value that `get(frame)` gives after the calls: nothing for a frame more than
/// two frames away from the current one; else the value of the latest accepted
/// insert into the frame's slot, if that insert was for this very frame.
pub open spec fn history_get<T>(ops: Seq<RingOp<T>>, frame: u32) -> Option<T> {
    if !in_window(frame_after(ops) as u32, frame) {
        None
    } else {
        match latest_in_slot(ops, slot_of(frame)) {
            Some((g, w)) => if g == frame { Some(w) } else { None },
            None => None,
        }
    }
}

proof fn lemma_frame_after_bounds<T>(ops: Seq<RingOp<T>>)
    ensures
        frame_after(ops) >= 0,
        ops.len() > 0 ==> frame_after(ops.drop_last()) <= frame_after(ops),
    decreases ops.len(),
{
    if ops.len() > 0 {
        lemma_frame_after_bounds(ops.drop_last());
    }
}

/// Each slot holds the latest accepted insert into it.
proof fn lemma_slots_after<T>(ops: Seq<RingOp<T>>)
    requires
        frame_after(ops) <= u32::MAX,
    ensures
        slots_after(ops).len() == BUF_SIZE,
        forall|s: int| 0 <= s < BUF_SIZE ==> #[trigger] slots_after(ops)[s] == latest_in_slot(ops, s),
    decreases ops.len(),
{
    if ops.len() > 0 {
        let prev = ops.drop_last();
        lemma_frame_after_bounds(ops);
        lemma_slots_after(prev);
        match ops.last() {
            RingOp::Advance => {},
            RingOp::Insert(g, w) => {
                assert(0 <= slot_of(g) < BUF_SIZE);
            },
        }
    }
}

/// The ring over a whole history of calls: after `new()` and any sequence of
/// `insert` and `advance` calls (with the frame counter not overflowing), `get(frame)`
/// gives `Some(v)` exactly when the frame is within two frames of the current one and
/// the latest accepted insert into its slot was `insert(frame, v)`.
pub proof fn law_get_after_history<T>(ops: Seq<RingOp<T>>, frame: u32)
    requires
        frame_after(ops) <= u32::MAX,
    ensures
        slot_get(slots_after(ops), frame_after(ops) as u32, frame) == history_get(ops, frame),
{
    lemma_slots_after(ops);
    assert(0 <= slot_of(frame) < BUF_SIZE);
}

} // verus!
