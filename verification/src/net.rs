use vstd::prelude::*;
use crate::input::{InputState, Pad};
use crate::ring::RingBuf;
use crate::config::FullID;
use crate::error::HostError;
use vstd::string::StringExecFns;

verus! {

/// The network address of a peer device.
#[derive(Debug, Clone, Copy, PartialEq, Eq, Structural)]
pub struct Addr(pub u64);

/// The input of a peer as sent over the network.
#[derive(Debug, Clone, Copy, PartialEq, Eq, Structural)]
pub struct Input {
    pub pad: Option<Pad>,
    pub buttons: u8,
}

/// Extra data that a peer attaches to a frame state.
#[derive(Debug, Clone, Copy, PartialEq, Eq, Structural)]
pub enum Extra {
    Empty,
    /// A random seed to mix into the shared random number generator.
    Rand(u32),
    /// The peer's current time.
    Now(u32),
}

/// The state of a peer on one frame.
#[derive(Debug, Clone, Copy, PartialEq, Eq, Structural)]
pub struct FrameState {
    pub frame: u32,
    pub input: Input,
    pub extra: Extra,
}

/// The input state for a network input.
pub open spec fn spec_input_state(i: Input) -> InputState {
    InputState { pad: i.pad, buttons: i.buttons }
}

impl Input {
    /// The input state for this network input.
    pub fn to_input_state(&self) -> (res: InputState)
        ensures
            res == spec_input_state(*self),
    {
        InputState { pad: self.pad, buttons: self.buttons }
    }
}

/// Two inputs combined: a button is pressed if it is pressed in either,
/// the pad is the first one's if it has one, else the second one's.
pub open spec fn spec_merge(a: InputState, b: InputState) -> InputState {
    InputState {
        pad: match a.pad {
            Some(p) => Some(p),
            None => b.pad,
        },
        buttons: a.buttons | b.buttons,
    }
}

impl InputState {
    /// Combine two inputs, see [`spec_merge`].
    pub fn merge(&self, other: &InputState) -> (res: InputState)
        ensures
            res == spec_merge(*self, *other),
    {
        InputState {
            pad: match self.pad {
                Some(p) => Some(p),
                None => other.pad,
            },
            buttons: self.buttons | other.buttons,
        }
    }
}

/// A peer in a running multiplayer game.
pub struct FSPeer {
    /// If address is None, the peer is the current device.
    pub addr: Option<Addr>,
    /// The human-readable name of the device.
    pub name: heapless::String<16>,
    /// The peer's index in the list of friends.
    pub friend_id: Option<u16>,
    /// The recent and the upcoming frame states of the peer.
    pub states: RingBuf<FrameState>,
    /// The peer's progress for each badge.
    pub badges: Vec<u16>,
    /// The peer's top score for each board.
    pub scores: Vec<i16>,
    /// The peer's shared state (save files, character, inventory, etc).
    pub stash: Vec<u8>,
}

/// The most peers a multiplayer game may have.
pub const MAX_PEERS: usize = 8;

/// How long (in milliseconds) to wait before asking peers again for their states.
pub const SYNC_EVERY: u64 = 2000;
/// How long (in milliseconds) to wait for the state of a frame.
pub const FRAME_TIMEOUT: u64 = 5000;
/// How long (in milliseconds) to wait for the state of one of the first frames.
pub const FIRST_TIMEOUT: u64 = 10000;

/// Keeps the devices of a multiplayer game on the same frame.
pub struct FrameSyncer {
    /// The current frame.
    pub frame: u32,
    /// All devices of the game, this one among them.
    pub peers: Vec<FSPeer>,
    /// The initial seed of the current device.
    pub device_seed: u32,
    /// The combined initial seed of all devices.
    pub shared_seed: u32,
    /// The time (in milliseconds) of the last request for the states of the current frame.
    pub last_sync: Option<u64>,
    /// The time (in milliseconds) when the game went to the current frame.
    pub last_advance: Option<u64>,
    /// The app that is running.
    pub app: FullID,
}

/// The state of the current frame of the peer, if known.
pub open spec fn current(p: FSPeer) -> Option<FrameState> {
    p.states.spec_get(p.states.frame)
}

/// The combined input of the given peers: the merge of the current inputs
/// known, from the last peer backwards.
pub open spec fn combined_input(peers: Seq<FSPeer>) -> InputState
    decreases peers.len(),
{
    if peers.len() == 0 {
        InputState { pad: None, buttons: 0 }
    } else {
        let acc = combined_input(peers.drop_last());
        match current(peers.last()) {
            Some(s) => spec_merge(acc, spec_input_state(s.input)),
            None => acc,
        }
    }
}

/// The random seeds that the peers attached to the current frame, combined with XOR.
pub open spec fn combined_seed(peers: Seq<FSPeer>) -> u32
    decreases peers.len(),
{
    if peers.len() == 0 {
        0
    } else {
        let acc = combined_seed(peers.drop_last());
        match current(peers.last()) {
            Some(FrameState { extra: Extra::Rand(r), .. }) => acc ^ r,
            _ => acc,
        }
    }
}

/// The earliest time that the peers attached to the current frame
/// (`u32::MAX` if none did).
pub open spec fn min_now(peers: Seq<FSPeer>) -> u32
    decreases peers.len(),
{
    if peers.len() == 0 {
        u32::MAX
    } else {
        let acc = min_now(peers.drop_last());
        match current(peers.last()) {
            Some(FrameState { extra: Extra::Now(t), .. }) => if t < acc { t } else { acc },
            _ => acc,
        }
    }
}

/// The index of the first peer that is the current device.
pub open spec fn me_index(peers: Seq<FSPeer>) -> int
    decreases peers.len(),
{
    if peers.len() == 0 {
        -1
    } else if peers[0].addr is None {
        0
    } else {
        let i = me_index(peers.drop_first());
        if i < 0 { -1 } else { i + 1 }
    }
}

/// The first peer with no address is at [`me_index`], and no peer before it has none.
proof fn lemma_me_index(peers: Seq<FSPeer>)
    ensures
        -1 <= me_index(peers) < peers.len(),
        me_index(peers) >= 0 ==> peers[me_index(peers)].addr is None,
        forall|k: int| 0 <= k < peers.len() && (me_index(peers) < 0 || k < me_index(peers))
            ==> #[trigger] peers[k].addr is Some,
    decreases peers.len(),
{
    if peers.len() > 0 && peers[0].addr is Some {
        lemma_me_index(peers.drop_first());
        assert forall|k: int| 0 <= k < peers.len() && (me_index(peers) < 0 || k < me_index(peers))
            implies #[trigger] peers[k].addr is Some by {
            if k > 0 {
                assert(peers[k] == peers.drop_first()[k - 1]);
            }
        }
    }
}

impl FrameSyncer {
    /// Check if we have the state of the current frame for all connected peers.
    pub fn ready(&self) -> (res: bool)
        ensures
            res == (forall|i: int| 0 <= i < self.peers@.len() ==> (#[trigger] current(self.peers@[i])) is Some),
    {
        let n = self.peers.len();
        let mut i: usize = 0;
        while i < n
            invariant
                n == self.peers@.len(),
                0 <= i <= n,
                forall|k: int| 0 <= k < i ==> (#[trigger] current(self.peers@[k])) is Some,
            decreases n - i,
        {
            if self.peers[i].states.get_current().is_none() {
                assert(current(self.peers@[i as int]) is None);
                return false;
            }
            i = i + 1;
        }
        true
    }

    /// Get combined input of all peers.
    ///
    /// A button is considered pressed if any peer presses it.
    pub fn get_combined_input(&self) -> (res: InputState)
        ensures
            res == combined_input(self.peers@),
    {
        let n = self.peers.len();
        let mut input = InputState::empty();
        let mut i: usize = 0;
        while i < n
            invariant
                n == self.peers@.len(),
                0 <= i <= n,
                input == combined_input(self.peers@.take(i as int)),
            decreases n - i,
        {
            assert(self.peers@.take(i + 1).drop_last() =~= self.peers@.take(i as int));
            if let Some(state) = self.peers[i].states.get_current() {
                input = input.merge(&state.input.to_input_state());
            }
            i = i + 1;
        }
        assert(self.peers@.take(n as int) =~= self.peers@);
        input
    }

    /// Get the combined random seed of all peers.
    ///
    /// Returns 0 if RNG was not synced on this frame.
    pub fn get_seed(&self) -> (res: u32)
        ensures
            res == combined_seed(self.peers@),
    {
        let n = self.peers.len();
        let mut seed: u32 = 0;
        let mut i: usize = 0;
        while i < n
            invariant
                n == self.peers@.len(),
                0 <= i <= n,
                seed == combined_seed(self.peers@.take(i as int)),
            decreases n - i,
        {
            assert(self.peers@.take(i + 1).drop_last() =~= self.peers@.take(i as int));
            if let Some(state) = self.peers[i].states.get_current() {
                if let Extra::Rand(rand) = state.extra {
                    seed = seed ^ rand;
                }
            }
            i = i + 1;
        }
        assert(self.peers@.take(n as int) =~= self.peers@);
        seed
    }

    /// The earliest time that the peers attached to the current frame, if any.
    pub fn get_now(&self) -> (res: Option<u32>)
        ensures
            res == (if min_now(self.peers@) == u32::MAX { None } else { Some(min_now(self.peers@)) }),
    {
        let n = self.peers.len();
        let mut min: u32 = u32::MAX;
        let mut i: usize = 0;
        while i < n
            invariant
                n == self.peers@.len(),
                0 <= i <= n,
                min == min_now(self.peers@.take(i as int)),
            decreases n - i,
        {
            assert(self.peers@.take(i + 1).drop_last() =~= self.peers@.take(i as int));
            if let Some(state) = self.peers[i].states.get_current() {
                if let Extra::Now(now) = state.extra {
                    if now < min {
                        min = now;
                    }
                }
            }
            i = i + 1;
        }
        assert(self.peers@.take(n as int) =~= self.peers@);
        if min == u32::MAX {
            None
        } else {
            Some(min)
        }
    }
}

/// The two peers differ in their frame states at most.
pub open spec fn same_but_states(a: FSPeer, b: FSPeer) -> bool {
    &&& a.addr == b.addr
    &&& a.name == b.name
    &&& a.friend_id == b.friend_id
    &&& a.badges@ == b.badges@
    &&& a.scores@ == b.scores@
    &&& a.stash@ == b.stash@
}

/// The state with its frame number replaced.
pub open spec fn at_frame(s: FrameState, frame: u32) -> FrameState {
    FrameState { frame, ..s }
}

impl FrameSyncer {
    /// All peers are on the syncer's frame, one of them is this device,
    /// and there are at most [`MAX_PEERS`] of them.
    pub open spec fn wf(&self) -> bool {
        &&& self.peers@.len() <= MAX_PEERS
        &&& me_index(self.peers@) >= 0
        &&& forall|j: int| 0 <= j < self.peers@.len() ==> (#[trigger] self.peers@[j]).states.frame == self.frame
    }

    /// Store the state of this device for the frame given in the state.
    fn set_my_state(&mut self, state: FrameState)
        ensures
            final(self).frame == old(self).frame,
            final(self).device_seed == old(self).device_seed,
            final(self).shared_seed == old(self).shared_seed,
            final(self).last_sync == old(self).last_sync,
            final(self).last_advance == old(self).last_advance,
            final(self).peers@.len() == old(self).peers@.len(),
            forall|j: int| 0 <= j < old(self).peers@.len() ==> {
                let p = #[trigger] final(self).peers@[j];
                let o = old(self).peers@[j];
                &&& same_but_states(p, o)
                &&& p.states.frame == o.states.frame
                &&& p.states.slots() == (if j == me_index(old(self).peers@) {
                    crate::ring::inserted(o.states.slots(), o.states.frame, state.frame, state)
                } else {
                    o.states.slots()
                })
            },
    {
        proof {
            lemma_me_index(self.peers@);
        }
        let ghost k = me_index(self.peers@);
        let n = self.peers.len();
        let mut i: usize = 0;
        while i < n
            invariant
                n == self.peers@.len(),
                0 <= i <= n,
                k == me_index(old(self).peers@),
                -1 <= k < n,
                k >= 0 ==> old(self).peers@[k].addr is None,
                forall|j: int| 0 <= j < n && (k < 0 || j < k) ==> (#[trigger] old(self).peers@[j]).addr is Some,
                k < 0 || i <= k,
                self.peers@ == old(self).peers@,
                self.frame == old(self).frame,
                self.device_seed == old(self).device_seed,
                self.shared_seed == old(self).shared_seed,
                self.last_sync == old(self).last_sync,
                self.last_advance == old(self).last_advance,
            decreases n - i,
        {
            if self.peers[i].addr.is_none() {
                self.peers[i].states.insert(state.frame, state);
                return;
            }
            i = i + 1;
        }
    }

    /// Go to the next frame and set that frame's state.
    ///
    /// The state is stored as the state of this device for the frame after
    /// the next one (and, when going to the first frame, for the first frame too).
    /// Returns the states to send to all other peers, in order.
    pub fn advance(&mut self, state: FrameState, now: u64) -> (res: Vec<FrameState>)
        requires
            old(self).wf(),
            old(self).frame + 2 <= u32::MAX,
        ensures
            final(self).wf(),
            final(self).frame == old(self).frame + 1,
            final(self).device_seed == old(self).device_seed,
            final(self).shared_seed == old(self).shared_seed,
            final(self).last_sync == Some(now),
            final(self).last_advance == Some(now),
            final(self).peers@.len() == old(self).peers@.len(),
            me_index(final(self).peers@) == me_index(old(self).peers@),
            final(self).peers@[me_index(final(self).peers@)].states.spec_get((final(self).frame + 1) as u32)
                == Some(at_frame(state, (final(self).frame + 1) as u32)),
            final(self).frame == 1 ==> final(self).peers@[me_index(final(self).peers@)].states.spec_get(1)
                == Some(at_frame(state, 1)),
            res@ == (if old(self).frame == 0 {
                seq![at_frame(state, 1), at_frame(state, 2)]
            } else {
                seq![at_frame(state, (old(self).frame + 2) as u32)]
            }),
            forall|j: int| 0 <= j < old(self).peers@.len() ==> {
                let p = #[trigger] final(self).peers@[j];
                let o = old(self).peers@[j];
                let f = final(self).frame;
                &&& same_but_states(p, o)
                &&& p.states.slots() == (if j != me_index(old(self).peers@) {
                    o.states.slots()
                } else if f == 1 {
                    crate::ring::inserted(
                        crate::ring::inserted(o.states.slots(), f, 1, at_frame(state, 1)),
                        f,
                        2,
                        at_frame(state, 2),
                    )
                } else {
                    crate::ring::inserted(o.states.slots(), f, (f + 1) as u32, at_frame(state, (f + 1) as u32))
                })
            },
    {
        self.frame = self.frame + 1;
        let n = self.peers.len();
        let mut i: usize = 0;
        while i < n
            invariant
                n == self.peers@.len(),
                0 <= i <= n,
                n == old(self).peers@.len(),
                self.frame == old(self).frame + 1,
                old(self).wf(),
                old(self).frame + 2 <= u32::MAX,
                self.device_seed == old(self).device_seed,
                self.shared_seed == old(self).shared_seed,
                forall|j: int| 0 <= j < n ==> {
                    let p = #[trigger] self.peers@[j];
                    let o = old(self).peers@[j];
                    &&& same_but_states(p, o)
                    &&& p.states.slots() == o.states.slots()
                    &&& p.states.frame == (if j < i { self.frame } else { old(self).frame })
                },
            decreases n - i,
        {
            self.peers[i].states.advance();
            i = i + 1;
        }
        proof {
            assert forall|j: int| 0 <= j < n implies (#[trigger] self.peers@[j]).addr == old(self).peers@[j].addr by {}
            lemma_me_index_same_addrs(old(self).peers@, self.peers@);
        }
        let ghost mid = self.peers@;
        let ghost k = me_index(old(self).peers@);
        let mut out: Vec<FrameState> = Vec::new();
        let ghost orig = state;
        let mut state = state;
        if self.frame == 1 {
            state.frame = 1;
            assert(state == at_frame(orig, 1));
            self.set_my_state(state);
            out.push(state);
        }
        let ghost mid2 = self.peers@;
        assert forall|j: int| 0 <= j < n implies {
            let p = #[trigger] mid2[j];
            let o = old(self).peers@[j];
            &&& same_but_states(p, o)
            &&& p.states.frame == self.frame
            &&& p.states.slots() == (if j == k && self.frame == 1 {
                crate::ring::inserted(o.states.slots(), self.frame, 1, at_frame(orig, 1))
            } else {
                o.states.slots()
            })
        } by {
            assert(mid[j].states.frame == self.frame);
        }
        proof {
            assert forall|j: int| 0 <= j < n implies (#[trigger] mid2[j]).addr == old(self).peers@[j].addr by {}
            lemma_me_index_same_addrs(old(self).peers@, mid2);
        }
        state.frame = self.frame + 1;
        assert(state == at_frame(orig, (self.frame + 1) as u32));
        self.set_my_state(state);
        out.push(state);
        self.last_advance = Some(now);
        self.last_sync = Some(now);
        proof {
            assert forall|j: int| 0 <= j < n implies (#[trigger] self.peers@[j]).addr == old(self).peers@[j].addr by {
                assert(mid2[j].addr == old(self).peers@[j].addr);
            }
            lemma_me_index_same_addrs(old(self).peers@, self.peers@);
            assert forall|j: int| 0 <= j < n implies {
                let p = #[trigger] self.peers@[j];
                let o = old(self).peers@[j];
                let f = self.frame;
                &&& same_but_states(p, o)
                &&& p.states.frame == f
                &&& p.states.slots() == (if j != k {
                    o.states.slots()
                } else if f == 1 {
                    crate::ring::inserted(
                        crate::ring::inserted(o.states.slots(), f, 1, at_frame(orig, 1)),
                        f,
                        2,
                        at_frame(orig, 2),
                    )
                } else {
                    crate::ring::inserted(o.states.slots(), f, (f + 1) as u32, at_frame(orig, (f + 1) as u32))
                })
            } by {
                assert(mid2[j].states.frame == self.frame);
            }
            lemma_me_index(old(self).peers@);
            let f = self.frame;
            let os = old(self).peers@[k].states.slots();
            assert(self.peers@[k].states.frame == f);
            let nf = (f + 1) as u32;
            if f == 1 {
                let s1 = crate::ring::inserted(os, f, 1, at_frame(orig, 1));
                crate::ring::lemma_slot_get_inserted(os, f, 1, at_frame(orig, 1), 2);
                crate::ring::lemma_slot_get_inserted(s1, f, 2, at_frame(orig, 2), 1);
            } else {
                crate::ring::lemma_slot_get_inserted(os, f, nf, at_frame(orig, nf), nf);
            }
        }
        out
    }
}

/// Two peer lists with the same addresses have the same current device.
proof fn lemma_me_index_same_addrs(a: Seq<FSPeer>, b: Seq<FSPeer>)
    requires
        a.len() == b.len(),
        forall|j: int| 0 <= j < a.len() ==> (#[trigger] b[j]).addr == a[j].addr,
    ensures
        me_index(a) == me_index(b),
    decreases a.len(),
{
    if a.len() > 0 {
        assert forall|j: int| 0 <= j < a.drop_first().len() implies (#[trigger] b.drop_first()[j]).addr == a.drop_first()[j].addr by {
            assert(b.drop_first()[j] == b[j + 1]);
            assert(a.drop_first()[j] == a[j + 1]);
        }
        lemma_me_index_same_addrs(a.drop_first(), b.drop_first());
    }
}

/// Errors of the multiplayer netcode.
#[derive(Debug, PartialEq, Eq)]
pub enum NetcodeError {
    /// A message could not be serialized.
    Serialize,
    /// A message could not be deserialized.
    Deserialize,
    /// The network failed.
    Network,
    EmptyBufferIn,
    EmptyBufferOut,
    PeerListFull,
    UnknownPeer,
    UnexpectedRequest,
    FrameTimeout,
    /// The peer with the given name disconnected.
    Disconnected(heapless::String<16>),
    /// The stats file of the app cannot be used; the text tells why.
    StatsError(&'static str),
}

/// The fixed message of an error that names no peer.
pub open spec fn netcode_error_text(e: NetcodeError) -> &'static str {
    match e {
        NetcodeError::Serialize => "serialization error",
        NetcodeError::Deserialize => "deserialization error",
        NetcodeError::Network => "network error",
        NetcodeError::PeerListFull => "cannot connect more devices",
        NetcodeError::EmptyBufferIn => "received empty message",
        NetcodeError::EmptyBufferOut => "serializer produced empty message",
        NetcodeError::UnknownPeer => "received message from unknown peer",
        NetcodeError::UnexpectedRequest => "received unexpected request",
        NetcodeError::FrameTimeout => "timed out waiting for frame state",
        NetcodeError::Disconnected(_) => "",
        NetcodeError::StatsError(msg) => msg,
    }
}

impl NetcodeError {
    /// The message shown for the error.
    pub fn message(&self) -> (res: String)
        ensures
            match self {
                NetcodeError::Disconnected(name) => exists|c: Seq<char>|
                    vstd::utf8::encode_utf8(c) == crate::config::id_bytes(*name) && res@ == c + " disconnected"@,
                _ => res@ == netcode_error_text(*self)@,
            },
    {
        match self {
            NetcodeError::Serialize => String::from_str("serialization error"),
            NetcodeError::Deserialize => String::from_str("deserialization error"),
            NetcodeError::Network => String::from_str("network error"),
            NetcodeError::PeerListFull => String::from_str("cannot connect more devices"),
            NetcodeError::EmptyBufferIn => String::from_str("received empty message"),
            NetcodeError::EmptyBufferOut => String::from_str("serializer produced empty message"),
            NetcodeError::UnknownPeer => String::from_str("received message from unknown peer"),
            NetcodeError::UnexpectedRequest => String::from_str("received unexpected request"),
            NetcodeError::FrameTimeout => String::from_str("timed out waiting for frame state"),
            NetcodeError::Disconnected(name) => {
                let mut msg = String::from_str(crate::config::short_str(name));
                msg.append(" disconnected");
                msg
            },
            NetcodeError::StatsError(msg) => String::from_str(msg),
        }
    }
}

/// A message that a running game receives from a peer.
pub enum SyncerMessage {
    /// The peer asks for this device's state of the given frame.
    ReqState(u32),
    /// The peer asks if this device started the app.
    ReqStart,
    /// The peer's state for a frame.
    State(FrameState),
    /// Any other message.
    Other,
}

/// What the running game answers to a message.
#[derive(Debug, PartialEq, Eq)]
pub enum SyncerReply {
    /// Nothing to answer.
    Nothing,
    /// Send this state to the peer.
    State(FrameState),
    /// Send the start info of this device (app, badges, scores, stash, seed) to the peer.
    Start,
}

/// What a received datagram holds before it is decoded.
#[derive(Debug, Clone, Copy, PartialEq, Eq, Structural)]
pub enum Incoming {
    /// The plain-text greeting of a device looking for peers.
    Hello,
    /// An encoded message.
    Encoded,
}

/// The bytes of the plain-text greeting.
pub open spec fn hello_bytes() -> Seq<u8> {
    seq![72u8, 69, 76, 76, 79]
}

/// Look at a received datagram before decoding it: an empty one is an error,
/// the bytes `HELLO` are the greeting, and anything else is an encoded message.
pub fn classify_incoming(s: &[u8]) -> (res: Result<Incoming, NetcodeError>)
    ensures
        s@.len() == 0 <==> res matches Err(NetcodeError::EmptyBufferIn),
        res is Err ==> s@.len() == 0,
        res matches Ok(Incoming::Hello) <==> s@ == hello_bytes(),
        res matches Ok(Incoming::Encoded) <==> (s@.len() != 0 && s@ != hello_bytes()),
{
    if s.len() == 0 {
        return Err(NetcodeError::EmptyBufferIn);
    }
    let hello: [u8; 5] = [72, 69, 76, 76, 79];
    if s.len() == 5 && s[0] == hello[0] && s[1] == hello[1] && s[2] == hello[2] && s[3] == hello[3]
        && s[4] == hello[4] {
        assert(s@ =~= hello_bytes());
        return Ok(Incoming::Hello);
    }
    assert(s@ != hello_bytes()) by {
        if s@ == hello_bytes() {
            assert(s@[0] == hello_bytes()[0]);
            assert(s@[1] == hello_bytes()[1]);
            assert(s@[2] == hello_bytes()[2]);
            assert(s@[3] == hello_bytes()[3]);
            assert(s@[4] == hello_bytes()[4]);
        }
    }
    Ok(Incoming::Encoded)
}

/// Check an encoded message before sending it: encoding into nothing is an error.
pub fn check_outgoing(encoded_len: usize) -> (res: Result<(), NetcodeError>)
    ensures
        encoded_len == 0 <==> res matches Err(NetcodeError::EmptyBufferOut),
        encoded_len != 0 <==> res is Ok,
{
    if encoded_len == 0 {
        Err(NetcodeError::EmptyBufferOut)
    } else {
        Ok(())
    }
}

/// True if some peer has the address.
pub open spec fn has_addr(peers: Seq<FSPeer>, addr: Addr) -> bool {
    exists|j: int| 0 <= j < peers.len() && (#[trigger] peers[j]).addr == Some(addr)
}

impl FrameSyncer {
    /// True if one of the peers has the given address.
    pub fn is_peer(&self, addr: Addr) -> (res: bool)
        ensures
            res == has_addr(self.peers@, addr),
    {
        let n = self.peers.len();
        let mut i: usize = 0;
        while i < n
            invariant
                n == self.peers@.len(),
                0 <= i <= n,
                forall|j: int| 0 <= j < i ==> (#[trigger] self.peers@[j]).addr != Some(addr),
            decreases n - i,
        {
            if self.peers[i].addr == Some(addr) {
                assert(self.peers@[i as int].addr == Some(addr));
                return true;
            }
            i = i + 1;
        }
        false
    }

    /// Store the state that a peer sent in that peer's ring of states.
    pub fn handle_state(&mut self, addr: Addr, state: FrameState)
        ensures
            final(self).frame == old(self).frame,
            final(self).device_seed == old(self).device_seed,
            final(self).shared_seed == old(self).shared_seed,
            final(self).last_sync == old(self).last_sync,
            final(self).last_advance == old(self).last_advance,
            final(self).peers@.len() == old(self).peers@.len(),
            forall|j: int| 0 <= j < old(self).peers@.len() ==> {
                let p = #[trigger] final(self).peers@[j];
                let o = old(self).peers@[j];
                &&& same_but_states(p, o)
                &&& p.states.frame == o.states.frame
                &&& p.states.slots() == (if o.addr == Some(addr) {
                    crate::ring::inserted(o.states.slots(), o.states.frame, state.frame, state)
                } else {
                    o.states.slots()
                })
            },
    {
        let n = self.peers.len();
        let mut i: usize = 0;
        while i < n
            invariant
                n == self.peers@.len(),
                n == old(self).peers@.len(),
                0 <= i <= n,
                self.frame == old(self).frame,
                self.device_seed == old(self).device_seed,
                self.shared_seed == old(self).shared_seed,
                self.last_sync == old(self).last_sync,
                self.last_advance == old(self).last_advance,
                forall|j: int| 0 <= j < n ==> {
                    let p = #[trigger] self.peers@[j];
                    let o = old(self).peers@[j];
                    &&& same_but_states(p, o)
                    &&& p.states.frame == o.states.frame
                    &&& p.states.slots() == (if j < i && o.addr == Some(addr) {
                        crate::ring::inserted(o.states.slots(), o.states.frame, state.frame, state)
                    } else {
                        o.states.slots()
                    })
                },
            decreases n - i,
        {
            if self.peers[i].addr == Some(addr) {
                self.peers[i].states.insert(state.frame, state);
            }
            i = i + 1;
        }
    }

    /// This device's state for the given frame, if it is still (or already) known.
    pub fn my_state(&self, frame: u32) -> (res: Option<FrameState>)
        requires
            me_index(self.peers@) >= 0,
        ensures
            res == self.peers@[me_index(self.peers@)].states.spec_get(frame),
    {
        proof {
            lemma_me_index(self.peers@);
        }
        let ghost k = me_index(self.peers@);
        let n = self.peers.len();
        let mut i: usize = 0;
        while i < n
            invariant
                n == self.peers@.len(),
                0 <= i <= k < n,
                k == me_index(self.peers@),
                self.peers@[k].addr is None,
                forall|j: int| 0 <= j < k ==> (#[trigger] self.peers@[j]).addr is Some,
            decreases n - i,
        {
            if self.peers[i].addr.is_none() {
                return self.peers[i].states.get(frame);
            }
            i = i + 1;
        }
        None
    }

    /// Decide what to do with a message from a peer.
    ///
    /// A state is stored, a request for a state is answered with this device's
    /// state of that frame if known, a request to start is answered with the
    /// start info. Messages from unknown peers and any other messages are errors.
    pub fn handle_message(&mut self, addr: Addr, msg: SyncerMessage) -> (res: Result<SyncerReply, NetcodeError>)
        requires
            me_index(old(self).peers@) >= 0,
        ensures
            !has_addr(old(self).peers@, addr) ==> res == Err::<SyncerReply, NetcodeError>(NetcodeError::UnknownPeer),
            has_addr(old(self).peers@, addr) ==> match msg {
                SyncerMessage::ReqState(frame) => res == Ok::<SyncerReply, NetcodeError>(
                    match old(self).peers@[me_index(old(self).peers@)].states.spec_get(frame) {
                        Some(s) => SyncerReply::State(s),
                        None => SyncerReply::Nothing,
                    },
                ),
                SyncerMessage::ReqStart => res == Ok::<SyncerReply, NetcodeError>(SyncerReply::Start),
                SyncerMessage::State(_) => res == Ok::<SyncerReply, NetcodeError>(SyncerReply::Nothing),
                SyncerMessage::Other => res == Err::<SyncerReply, NetcodeError>(NetcodeError::UnexpectedRequest),
            },
            final(self).frame == old(self).frame,
            final(self).peers@.len() == old(self).peers@.len(),
            forall|j: int| 0 <= j < old(self).peers@.len() ==> {
                let p = #[trigger] final(self).peers@[j];
                let o = old(self).peers@[j];
                &&& same_but_states(p, o)
                &&& p.states.frame == o.states.frame
                &&& p.states.slots() == match msg {
                    SyncerMessage::State(s) => if has_addr(old(self).peers@, addr) && o.addr == Some(addr) {
                        crate::ring::inserted(o.states.slots(), o.states.frame, s.frame, s)
                    } else {
                        o.states.slots()
                    },
                    _ => o.states.slots(),
                }
            },
    {
        if !self.is_peer(addr) {
            return Err(NetcodeError::UnknownPeer);
        }
        match msg {
            SyncerMessage::ReqState(frame) => match self.my_state(frame) {
                Some(s) => Ok(SyncerReply::State(s)),
                None => Ok(SyncerReply::Nothing),
            },
            SyncerMessage::ReqStart => Ok(SyncerReply::Start),
            SyncerMessage::State(state) => {
                self.handle_state(addr, state);
                Ok(SyncerReply::Nothing)
            },
            SyncerMessage::Other => Err(NetcodeError::UnexpectedRequest),
        }
    }

    /// The addresses of the peers whose state of the current frame is not known yet.
    pub fn missing_states(&self) -> (res: Vec<Addr>)
        ensures
            res@ == missing(self.peers@),
    {
        let n = self.peers.len();
        let mut out: Vec<Addr> = Vec::new();
        let mut i: usize = 0;
        while i < n
            invariant
                n == self.peers@.len(),
                0 <= i <= n,
                out@ == missing(self.peers@.take(i as int)),
            decreases n - i,
        {
            assert(self.peers@.take(i + 1).drop_last() =~= self.peers@.take(i as int));
            if let Some(addr) = self.peers[i].addr {
                if self.peers[i].states.get_current().is_none() {
                    out.push(addr);
                }
            }
            i = i + 1;
        }
        assert(self.peers@.take(n as int) =~= self.peers@);
        out
    }

    /// Check if it is time to ask the peers again for the states of the current frame.
    /// If it is, the time of asking is noted.
    pub fn sync_due(&mut self, now: u64) -> (res: bool)
        ensures
            res == !(old(self).last_sync matches Some(prev) && elapsed(now, prev) < SYNC_EVERY),
            final(self).last_sync == (if res { Some(now) } else { old(self).last_sync }),
            final(self).frame == old(self).frame,
            final(self).peers == old(self).peers,
            final(self).last_advance == old(self).last_advance,
            final(self).device_seed == old(self).device_seed,
            final(self).shared_seed == old(self).shared_seed,
    {
        if let Some(prev) = self.last_sync {
            if now.saturating_sub(prev) < SYNC_EVERY {
                return false;
            }
        }
        self.last_sync = Some(now);
        true
    }

    /// True if the state of the current frame took too long to arrive:
    /// longer than [`FIRST_TIMEOUT`] on the first two frames, longer than
    /// [`FRAME_TIMEOUT`] later.
    pub fn timed_out(&self, now: u64) -> (res: bool)
        requires
            self.last_advance is Some,
        ensures
            res == (elapsed(now, self.last_advance->0) > (if self.frame <= 2 {
                FIRST_TIMEOUT
            } else {
                FRAME_TIMEOUT
            })),
    {
        let timeout = if self.frame <= 2 { FIRST_TIMEOUT } else { FRAME_TIMEOUT };
        let last = match self.last_advance {
            Some(t) => t,
            None => 0,
        };
        now.saturating_sub(last) > timeout
    }
}

/// The time passed between two moments (in milliseconds), zero if the clock went back.
pub open spec fn elapsed(now: u64, prev: u64) -> int {
    if now >= prev { now - prev } else { 0 }
}

/// The addresses of the peers (other than this device) whose current state is not known.
pub open spec fn missing(peers: Seq<FSPeer>) -> Seq<Addr>
    decreases peers.len(),
{
    if peers.len() == 0 {
        Seq::empty()
    } else {
        let acc = missing(peers.drop_last());
        let p = peers.last();
        match p.addr {
            Some(a) => if current(p) is None { acc.push(a) } else { acc },
            None => acc,
        }
    }
}

/// A number whose lowest `n` bits are set.
pub open spec fn ones(n: nat) -> u32
    decreases n,
{
    if n == 0 {
        0
    } else {
        (((ones((n - 1) as nat) as u64) << 1u64) | 1u64) as u32
    }
}

impl FrameSyncer {
    /// The index of the local peer.
    pub fn get_me(&self) -> (res: u32)
        requires
            me_index(self.peers@) >= 0,
            self.peers@.len() <= u32::MAX,
        ensures
            res == me_index(self.peers@),
    {
        proof {
            lemma_me_index(self.peers@);
        }
        let ghost k = me_index(self.peers@);
        let n = self.peers.len();
        let mut i: usize = 0;
        while i < n
            invariant
                n == self.peers@.len(),
                n <= u32::MAX,
                0 <= i <= k < n,
                k == me_index(self.peers@),
                self.peers@[k].addr is None,
                forall|j: int| 0 <= j < k ==> (#[trigger] self.peers@[j]).addr is Some,
            decreases n - i,
        {
            if self.peers[i].addr.is_none() {
                return i as u32;
            }
            i = i + 1;
        }
        0
    }

    /// The map of the peers that are currently online: one bit for each peer.
    pub fn get_peers(&self) -> (res: u32)
        ensures
            res == ones(self.peers@.len()),
    {
        let n = self.peers.len();
        let mut res: u32 = 0;
        let mut i: usize = 0;
        while i < n
            invariant
                n == self.peers@.len(),
                0 <= i <= n,
                res == ones(i as nat),
            decreases n - i,
        {
            let ghost prev: u32 = res;
            res = (res << 1u32) | 1u32;
            assert(res == (((prev as u64) << 1u64) | 1u64) as u32) by (bit_vector)
                requires
                    res == ((prev << 1u32) | 1u32),
            ;
            assert(ones((i + 1) as nat) == (((prev as u64) << 1u64) | 1u64) as u32);
            i = i + 1;
        }
        res
    }

    /// The input of the peer with the given index on the current frame.
    ///
    /// Indices above 32 ask for the combined input of all peers. An unknown
    /// index is an error; a peer whose input for the frame is not known yet has none.
    pub fn get_input(&self, index: u32) -> (res: Result<Option<InputState>, HostError>)
        ensures
            index > 32 ==> res == Ok::<Option<InputState>, HostError>(Some(combined_input(self.peers@))),
            index <= 32 && index >= self.peers@.len() ==> res == Err::<Option<InputState>, HostError>(
                HostError::UnknownPeer(index),
            ),
            index <= 32 && index < self.peers@.len() ==> res == Ok::<Option<InputState>, HostError>(
                match current(self.peers@[index as int]) {
                    Some(s) => Some(spec_input_state(s.input)),
                    None => None,
                },
            ),
    {
        if index > 32 {
            return Ok(Some(self.get_combined_input()));
        }
        if index as usize >= self.peers.len() {
            return Err(HostError::UnknownPeer(index));
        }
        match self.peers[index as usize].states.get_current() {
            Some(state) => Ok(Some(state.input.to_input_state())),
            None => Ok(None),
        }
    }
}

/// The peer that a stats call of the app is about, if it is a friend: `0xff` means
/// this device; any other number is an index into the peers of the game, which must
/// be another device that has a friend ID.
pub fn friend_peer(peers: &Vec<FSPeer>, peer_id: u32) -> (res: Option<usize>)
    ensures
        res == if peer_id == 0xff || peer_id >= peers@.len() {
            None::<usize>
        } else if peers@[peer_id as int].addr is None || peers@[peer_id as int].friend_id is None {
            None::<usize>
        } else {
            Some(peer_id as usize)
        },
{
    if peer_id == 0xff {
        return None;
    }
    let i = peer_id as usize;
    if i >= peers.len() {
        return None;
    }
    if peers[i].addr.is_none() || peers[i].friend_id.is_none() {
        return None;
    }
    Some(i)
}

} // verus!
