use vstd::prelude::*;
use crate::config::FullID;
use crate::net::{Addr, FSPeer, FrameSyncer, NetcodeError, MAX_PEERS, elapsed, me_index};
use crate::ring::RingBuf;
use crate::scores::AppStats;

verus! {

/// What a peer brings into a game: its app-specific info and its seed.
pub struct AppIntro {
    /// The peer's progress for each badge.
    pub badges: Vec<u16>,
    /// The peer's top score for each board.
    pub scores: Vec<i16>,
    /// The peer's stash: a shared state preserved across games.
    pub stash: Vec<u8>,
    /// The peer's true RNG seed.
    pub seed: u32,
}

/// The intro holds the progress of each badge of the app and its best score on
/// each board (none without stats), the stash, and the seed.
pub open spec fn is_intro_of(res: AppIntro, stats: Option<AppStats>, stash: Seq<u8>, seed: u32) -> bool {
    &&& res.stash@ == stash
    &&& res.seed == seed
    &&& match stats {
        None => res.badges@.len() == 0 && res.scores@.len() == 0,
        Some(st) => {
            &&& res.badges@ == st.badges@.map_values(|b: crate::scores::BadgeProgress| b.done)
            &&& res.scores@ == st.scores@.map_values(|s: crate::scores::BoardScores| s.me[0])
        },
    }
}

/// What this device brings into a game, see [`is_intro_of`].
pub fn app_intro(stats: &Option<AppStats>, stash: Vec<u8>, seed: u32) -> (res: AppIntro)
    ensures
        is_intro_of(res, *stats, stash@, seed),
{
    let mut badges: Vec<u16> = Vec::new();
    let mut scores: Vec<i16> = Vec::new();
    if let Some(st) = stats {
        let n = st.badges.len();
        let mut k: usize = 0;
        while k < n
            invariant
                n == st.badges@.len(),
                0 <= k <= n,
                badges@ == st.badges@.subrange(0, k as int).map_values(|b: crate::scores::BadgeProgress| b.done),
            decreases n - k,
        {
            badges.push(st.badges[k].done);
            k = k + 1;
            assert(badges@ =~= st.badges@.subrange(0, k as int).map_values(|b: crate::scores::BadgeProgress| b.done));
        }
        assert(st.badges@.subrange(0, n as int) =~= st.badges@);
        let m = st.scores.len();
        let mut j: usize = 0;
        while j < m
            invariant
                m == st.scores@.len(),
                0 <= j <= m,
                scores@ == st.scores@.subrange(0, j as int).map_values(|s: crate::scores::BoardScores| s.me[0]),
            decreases m - j,
        {
            scores.push(st.scores[j].me[0]);
            j = j + 1;
            assert(scores@ =~= st.scores@.subrange(0, j as int).map_values(|s: crate::scores::BoardScores| s.me[0]));
        }
        assert(st.scores@.subrange(0, m as int) =~= st.scores@);
    }
    AppIntro { badges, scores, stash, seed }
}

/// What this device brings into a game, from the app's stats file: `file_len` is
/// the size of the file, none if there is no file, and `decoded` the stats in it,
/// none if it doesn't decode. Without the file the app has no badges and no scores;
/// an empty file and a file that doesn't decode are errors.
pub fn intro_from_stats_file(file_len: Option<usize>, decoded: &Option<AppStats>, stash: Vec<u8>, seed: u32) -> (res:
    Result<AppIntro, NetcodeError>)
    ensures
        match file_len {
            None => res matches Ok(i) && is_intro_of(i, None, stash@, seed),
            Some(n) => if n == 0 {
                res == Err::<AppIntro, NetcodeError>(NetcodeError::StatsError("file is empty"))
            } else if decoded is None {
                res == Err::<AppIntro, NetcodeError>(NetcodeError::StatsError("cannot decode stats"))
            } else {
                res matches Ok(i) && is_intro_of(i, *decoded, stash@, seed)
            },
        },
{
    match file_len {
        None => Ok(app_intro(&None, stash, seed)),
        Some(n) => {
            if n == 0 {
                return Err(NetcodeError::StatsError("file is empty"));
            }
            if decoded.is_none() {
                return Err(NetcodeError::StatsError("cannot decode stats"));
            }
            Ok(app_intro(decoded, stash, seed))
        },
    }
}

/// A device connected for multiplayer.
pub struct Peer {
    /// If address is None, the peer is the current device.
    pub addr: Option<Addr>,
    /// The human-readable name of the device.
    pub name: heapless::String<16>,
    /// Not None when the peer is ready to start the selected app.
    pub intro: Option<AppIntro>,
}

/// The state of a connection after an update.
#[derive(Debug, Clone, Copy, PartialEq, Eq, Structural)]
pub enum ConnectionStatus {
    /// Waiting for one of the players to pick an app to launch.
    Waiting,
    /// Ready to launch an app, waiting for everyone to confirm the choice.
    Ready,
    /// Everyone agreed to play, launch the app.
    Launching,
    /// We wanted to start an app but didn't get intros from some peers.
    Timeout,
}

/// How long (in milliseconds) to wait before asking the peers again if they started.
pub const CONN_SYNC_EVERY: u64 = 100;
/// How long (in milliseconds) to wait before telling the peers again that this device is ready.
pub const READY_EVERY: u64 = 100;
/// How long (in milliseconds) to wait for all peers to be ready to start the app.
pub const START_TIMEOUT: u64 = 10_000;

/// The devices connected for multiplayer, while in the launcher.
///
/// Its job is to launch an app for everyone when someone picks one to play.
pub struct Connection {
    /// The app to launch, once it is known.
    pub app: Option<FullID>,
    /// This device's seed for the app to launch, once it is drawn.
    pub seed: Option<u32>,
    /// All connected devices, this one among them.
    pub peers: Vec<Peer>,
    /// The last time (in milliseconds) when the device checked if other devices are ready to start.
    pub last_sync: Option<u64>,
    /// The last time (in milliseconds) when the device announced that it's ready to start the app.
    pub last_ready: Option<u64>,
    /// The moment (in milliseconds) when we knew which app to launch.
    pub started_at: Option<u64>,
}

/// The peer is ready to start the app.
pub open spec fn peer_ready(p: Peer) -> bool {
    p.intro is Some
}

/// The seeds of the peers' intros combined with XOR (a missing intro adds nothing).
pub open spec fn intro_seeds(peers: Seq<Peer>) -> u32
    decreases peers.len(),
{
    if peers.len() == 0 {
        0
    } else {
        let acc = intro_seeds(peers.drop_last());
        match peers.last().intro {
            Some(i) => acc ^ i.seed,
            None => acc,
        }
    }
}

/// The index of the first peer with the given address, or -1.
pub open spec fn index_of_addr(peers: Seq<Peer>, addr: Addr) -> int
    decreases peers.len(),
{
    if peers.len() == 0 {
        -1
    } else if peers[0].addr == Some(addr) {
        0
    } else {
        let i = index_of_addr(peers.drop_first(), addr);
        if i < 0 { -1 } else { i + 1 }
    }
}

proof fn lemma_index_of_addr(peers: Seq<Peer>, addr: Addr)
    ensures
        -1 <= index_of_addr(peers, addr) < peers.len(),
        index_of_addr(peers, addr) >= 0 ==> peers[index_of_addr(peers, addr)].addr == Some(addr),
        forall|k: int| 0 <= k < peers.len() && (index_of_addr(peers, addr) < 0 || k < index_of_addr(peers, addr))
            ==> (#[trigger] peers[k]).addr != Some(addr),
    decreases peers.len(),
{
    if peers.len() > 0 && peers[0].addr != Some(addr) {
        lemma_index_of_addr(peers.drop_first(), addr);
        assert forall|k: int| 0 <= k < peers.len() && (index_of_addr(peers, addr) < 0 || k < index_of_addr(peers, addr))
            implies (#[trigger] peers[k]).addr != Some(addr) by {
            if k > 0 {
                assert(peers[k] == peers.drop_first()[k - 1]);
            }
        }
    }
}

/// Find the first peer with the given address.
fn find_peer(peers: &Vec<Peer>, addr: Addr) -> (res: Option<usize>)
    ensures
        match res {
            Some(i) => i == index_of_addr(peers@, addr) && i < peers@.len(),
            None => index_of_addr(peers@, addr) < 0,
        },
{
    proof {
        lemma_index_of_addr(peers@, addr);
    }
    let n = peers.len();
    let mut i: usize = 0;
    while i < n
        invariant
            n == peers@.len(),
            0 <= i <= n,
            -1 <= index_of_addr(peers@, addr) < n,
            index_of_addr(peers@, addr) >= 0 ==> peers@[index_of_addr(peers@, addr)].addr == Some(addr),
            forall|k: int| 0 <= k < i ==> (#[trigger] peers@[k]).addr != Some(addr),
            forall|k: int| 0 <= k < n && (index_of_addr(peers@, addr) < 0 || k < index_of_addr(peers@, addr))
                ==> (#[trigger] peers@[k]).addr != Some(addr),
        decreases n - i,
    {
        if peers[i].addr == Some(addr) {
            return Some(i);
        }
        i = i + 1;
    }
    None
}

impl Connection {
    /// Check if the peers took too long to get ready since the app to launch is known.
    ///
    /// The timeout is reported once: the start moment is forgotten.
    pub fn check_timeout(&mut self, now: u64) -> (res: bool)
        ensures
            res == (old(self).started_at matches Some(t) && elapsed(now, t) > START_TIMEOUT),
            final(self).started_at == (if res { None } else { old(self).started_at }),
            final(self).app == old(self).app,
            final(self).seed == old(self).seed,
            final(self).peers == old(self).peers,
            final(self).last_sync == old(self).last_sync,
            final(self).last_ready == old(self).last_ready,
    {
        if let Some(started_at) = self.started_at {
            if now.saturating_sub(started_at) > START_TIMEOUT {
                self.started_at = None;
                return true;
            }
        }
        false
    }

    /// The status of the connection: launch the app once every peer is ready,
    /// else wait for the peers if the app is known, else wait for someone to pick one.
    pub fn status(&self) -> (res: ConnectionStatus)
        ensures
            res == (if forall|i: int| 0 <= i < self.peers@.len() ==> peer_ready(#[trigger] self.peers@[i]) {
                ConnectionStatus::Launching
            } else if self.app is Some {
                ConnectionStatus::Ready
            } else {
                ConnectionStatus::Waiting
            }),
    {
        let n = self.peers.len();
        let mut i: usize = 0;
        let mut all_ready = true;
        while i < n
            invariant
                n == self.peers@.len(),
                0 <= i <= n,
                all_ready == forall|k: int| 0 <= k < i ==> peer_ready(#[trigger] self.peers@[k]),
            decreases n - i,
        {
            if self.peers[i].intro.is_none() {
                all_ready = false;
            }
            i = i + 1;
        }
        if all_ready {
            return ConnectionStatus::Launching;
        }
        match self.app {
            Some(_) => ConnectionStatus::Ready,
            None => ConnectionStatus::Waiting,
        }
    }

    /// The initial seed that must be used when starting the app.
    ///
    /// The first call takes the given random value from the device's true RNG.
    /// After that, the value is kept to ensure it's the same in all intros.
    pub fn get_seed(&mut self, random: u32) -> (res: u32)
        ensures
            res == (match old(self).seed {
                Some(s) => s,
                None => random,
            }),
            final(self).seed == Some(res),
            final(self).app == old(self).app,
            final(self).peers == old(self).peers,
            final(self).last_sync == old(self).last_sync,
            final(self).last_ready == old(self).last_ready,
            final(self).started_at == old(self).started_at,
    {
        match self.seed {
            Some(seed) => seed,
            None => {
                self.seed = Some(random);
                random
            },
        }
    }

    /// Pick the app to launch, with this device's intro for it.
    ///
    /// An app can be picked only once: returns false, and changes nothing,
    /// if it was picked already. Else the start moment is noted and the intro
    /// becomes the intro of this device.
    pub fn set_app(&mut self, app: FullID, intro: AppIntro, now: u64) -> (res: bool)
        requires
            me_index_conn(old(self).peers@) >= 0,
        ensures
            res == old(self).app is None,
            !res ==> *final(self) == *old(self),
            res ==> {
                &&& final(self).app == Some(app)
                &&& final(self).started_at == Some(now)
                &&& final(self).seed == old(self).seed
                &&& final(self).peers@ == old(self).peers@.update(
                    me_index_conn(old(self).peers@),
                    Peer { intro: Some(intro), ..old(self).peers@[me_index_conn(old(self).peers@)] },
                )
            },
    {
        if self.app.is_some() {
            return false;
        }
        self.app = Some(app);
        self.started_at = Some(now);
        let i = find_me(&self.peers);
        self.peers[i].intro = Some(intro);
        true
    }

    /// Set the intro of the peer with the given address (a peer that is ready to start).
    pub fn set_peer_intro(&mut self, addr: Addr, intro: AppIntro)
        ensures
            final(self).app == old(self).app,
            final(self).seed == old(self).seed,
            final(self).started_at == old(self).started_at,
            final(self).last_sync == old(self).last_sync,
            final(self).last_ready == old(self).last_ready,
            final(self).peers@ == (if index_of_addr(old(self).peers@, addr) >= 0 {
                old(self).peers@.update(
                    index_of_addr(old(self).peers@, addr),
                    Peer { intro: Some(intro), ..old(self).peers@[index_of_addr(old(self).peers@, addr)] },
                )
            } else {
                old(self).peers@
            }),
    {
        if let Some(i) = find_peer(&self.peers, addr) {
            self.peers[i].intro = Some(intro);
        }
    }

    /// Handle a peer's disconnect: it is removed from the peers (if known),
    /// and the error names it (`???` if unknown).
    pub fn handle_disconnect(&mut self, addr: Addr, unknown_name: heapless::String<16>) -> (res: NetcodeError)
        ensures
            index_of_addr(old(self).peers@, addr) >= 0 ==> {
                let i = index_of_addr(old(self).peers@, addr);
                &&& final(self).peers@ == old(self).peers@.remove(i)
                &&& res == NetcodeError::Disconnected(old(self).peers@[i].name)
            },
            index_of_addr(old(self).peers@, addr) < 0 ==> {
                &&& final(self).peers@ == old(self).peers@
                &&& res == NetcodeError::Disconnected(unknown_name)
            },
            final(self).app == old(self).app,
            final(self).seed == old(self).seed,
            final(self).started_at == old(self).started_at,
            final(self).last_sync == old(self).last_sync,
            final(self).last_ready == old(self).last_ready,
    {
        match find_peer(&self.peers, addr) {
            Some(i) => {
                let peer = self.peers.remove(i);
                NetcodeError::Disconnected(peer.name)
            },
            None => NetcodeError::Disconnected(unknown_name),
        }
    }

    /// Check if it is time to ask the peers again if they started, and note the time if so.
    pub fn sync_due(&mut self, now: u64) -> (res: bool)
        ensures
            res == !(old(self).last_sync matches Some(prev) && elapsed(now, prev) < CONN_SYNC_EVERY),
            final(self).last_sync == (if res { Some(now) } else { old(self).last_sync }),
            final(self).app == old(self).app,
            final(self).seed == old(self).seed,
            final(self).peers == old(self).peers,
            final(self).last_ready == old(self).last_ready,
            final(self).started_at == old(self).started_at,
    {
        if let Some(prev) = self.last_sync {
            if now.saturating_sub(prev) < CONN_SYNC_EVERY {
                return false;
            }
        }
        self.last_sync = Some(now);
        true
    }

    /// Check if it is time to tell the peers again that this device is ready,
    /// and note the time if so. Only a device that knows the app to launch is ready.
    pub fn ready_due(&mut self, now: u64) -> (res: bool)
        ensures
            res == (old(self).app is Some && !(old(self).last_ready matches Some(prev) && elapsed(now, prev)
                < READY_EVERY)),
            final(self).last_ready == (if res { Some(now) } else { old(self).last_ready }),
            final(self).app == old(self).app,
            final(self).seed == old(self).seed,
            final(self).peers == old(self).peers,
            final(self).last_sync == old(self).last_sync,
            final(self).started_at == old(self).started_at,
    {
        if self.app.is_none() {
            return false;
        }
        if let Some(prev) = self.last_ready {
            if now.saturating_sub(prev) < READY_EVERY {
                return false;
            }
        }
        self.last_ready = Some(now);
        true
    }

    /// Turn the connection into a running game once every peer is ready.
    ///
    /// `friend_ids` gives, for each peer in order, its index in the list of friends;
    /// this device gets none. The shared seed combines the seeds of all intros.
    pub fn finalize(self, friend_ids: Vec<Option<u16>>) -> (res: FrameSyncer)
        requires
            self.app is Some,
            self.seed is Some,
            self.peers@.len() <= MAX_PEERS,
            friend_ids@.len() == self.peers@.len(),
            forall|i: int| 0 <= i < self.peers@.len() ==> peer_ready(#[trigger] self.peers@[i]),
        ensures
            res.frame == 0,
            res.device_seed == self.seed->0,
            res.shared_seed == intro_seeds(self.peers@),
            res.app == self.app->0,
            res.last_sync is None,
            res.last_advance is None,
            res.peers@.len() == self.peers@.len(),
            forall|i: int| 0 <= i < self.peers@.len() ==> {
                let p = #[trigger] res.peers@[i];
                let o = self.peers@[i];
                &&& p.addr == o.addr
                &&& p.name == o.name
                &&& p.friend_id == (if o.addr is None { None } else { friend_ids@[i] })
                &&& p.states.frame == 0
                &&& empty_ring(p.states)
                &&& p.badges@ == o.intro->0.badges@
                &&& p.scores@ == o.intro->0.scores@
                &&& p.stash@ == o.intro->0.stash@
            },
    {
        let ghost old_peers = self.peers@;
        let Connection { app, seed, peers, .. } = self;
        let mut peers = peers;
        let mut out: Vec<FSPeer> = Vec::new();
        let mut shared: u32 = 0;
        let n = peers.len();
        // Take the peers from the back, then reverse.
        let mut rev: Vec<FSPeer> = Vec::new();
        proof {
            lemma_zero_xor(intro_seeds(old_peers));
            assert(old_peers.take(n as int) =~= old_peers);
        }
        while peers.len() > 0
            invariant
                n == old_peers.len(),
                friend_ids@.len() == n,
                peers@ == old_peers.take(peers@.len() as int),
                peers@.len() <= n,
                rev@.len() == n - peers@.len(),
                forall|k: int| 0 <= k < n ==> peer_ready(#[trigger] old_peers[k]),
                shared ^ intro_seeds(peers@) == intro_seeds(old_peers),
                forall|j: int| 0 <= j < rev@.len() ==> {
                    let p = #[trigger] rev@[j];
                    let o = old_peers[n - 1 - j];
                    &&& p.addr == o.addr
                    &&& p.name == o.name
                    &&& p.friend_id == (if o.addr is None { None } else { friend_ids@[n - 1 - j] })
                    &&& p.states.frame == 0
                    &&& empty_ring(p.states)
                    &&& p.badges@ == o.intro->0.badges@
                    &&& p.scores@ == o.intro->0.scores@
                    &&& p.stash@ == o.intro->0.stash@
                },
            decreases peers@.len(),
        {
            let k = peers.len() - 1;
            let ghost before = peers@;
            assert(old_peers.take(k as int) =~= before.drop_last());
            assert(before.last() == old_peers[k as int]);
            let peer = peers.pop().unwrap();
            let intro = peer.intro.unwrap();
            let friend_id = if peer.addr.is_none() { None } else { friend_ids[k] };
            proof {
                let rest = intro_seeds(before.drop_last());
                assert(intro_seeds(before) == rest ^ intro.seed);
                lemma_xor_swap(shared, intro.seed, rest);
            }
            shared = shared ^ intro.seed;
            rev.push(FSPeer {
                addr: peer.addr,
                name: peer.name,
                states: RingBuf::new(),
                friend_id,
                badges: intro.badges,
                scores: intro.scores,
                stash: intro.stash,
            });
        }
        assert(intro_seeds(peers@) == 0);
        proof {
            lemma_xor_zero(shared);
        }
        while rev.len() > 0
            invariant
                n == old_peers.len(),
                friend_ids@.len() == n,
                out@.len() + rev@.len() == n,
                forall|j: int| 0 <= j < rev@.len() ==> {
                    let p = #[trigger] rev@[j];
                    let o = old_peers[n - 1 - j];
                    &&& p.addr == o.addr
                    &&& p.name == o.name
                    &&& p.friend_id == (if o.addr is None { None } else { friend_ids@[n - 1 - j] })
                    &&& p.states.frame == 0
                    &&& empty_ring(p.states)
                    &&& p.badges@ == o.intro->0.badges@
                    &&& p.scores@ == o.intro->0.scores@
                    &&& p.stash@ == o.intro->0.stash@
                },
                forall|j: int| 0 <= j < out@.len() ==> {
                    let p = #[trigger] out@[j];
                    let o = old_peers[j];
                    &&& p.addr == o.addr
                    &&& p.name == o.name
                    &&& p.friend_id == (if o.addr is None { None } else { friend_ids@[j] })
                    &&& p.states.frame == 0
                    &&& empty_ring(p.states)
                    &&& p.badges@ == o.intro->0.badges@
                    &&& p.scores@ == o.intro->0.scores@
                    &&& p.stash@ == o.intro->0.stash@
                },
            decreases rev@.len(),
        {
            let ghost before = rev@;
            let p = rev.pop().unwrap();
            assert(p == before[before.len() - 1]);
            out.push(p);
        }
        FrameSyncer {
            frame: 0,
            peers: out,
            device_seed: seed.unwrap(),
            shared_seed: shared,
            last_sync: None,
            last_advance: None,
            app: app.unwrap(),
        }
    }
}

/// No frame has a state in the ring.
pub open spec fn empty_ring(r: RingBuf<crate::net::FrameState>) -> bool {
    forall|f: u32| #[trigger] r.spec_get(f) is None
}

proof fn lemma_xor_swap(a: u32, b: u32, c: u32)
    ensures
        (a ^ b) ^ c == a ^ (c ^ b),
{
    assert((a ^ b) ^ c == a ^ (c ^ b)) by (bit_vector);
}

proof fn lemma_zero_xor(a: u32)
    ensures
        0 ^ a == a,
{
    assert(0 ^ a == a) by (bit_vector);
}

proof fn lemma_xor_zero(a: u32)
    ensures
        a ^ 0 == a,
{
    assert(a ^ 0 == a) by (bit_vector);
}

/// The index of the first peer that is the current device, or -1.
pub open spec fn me_index_conn(peers: Seq<Peer>) -> int
    decreases peers.len(),
{
    if peers.len() == 0 {
        -1
    } else if peers[0].addr is None {
        0
    } else {
        let i = me_index_conn(peers.drop_first());
        if i < 0 { -1 } else { i + 1 }
    }
}

proof fn lemma_me_index_conn(peers: Seq<Peer>)
    ensures
        -1 <= me_index_conn(peers) < peers.len(),
        me_index_conn(peers) >= 0 ==> peers[me_index_conn(peers)].addr is None,
        forall|k: int| 0 <= k < peers.len() && (me_index_conn(peers) < 0 || k < me_index_conn(peers))
            ==> (#[trigger] peers[k]).addr is Some,
    decreases peers.len(),
{
    if peers.len() > 0 && peers[0].addr is Some {
        lemma_me_index_conn(peers.drop_first());
        assert forall|k: int| 0 <= k < peers.len() && (me_index_conn(peers) < 0 || k < me_index_conn(peers))
            implies (#[trigger] peers[k]).addr is Some by {
            if k > 0 {
                assert(peers[k] == peers.drop_first()[k - 1]);
            }
        }
    }
}

/// The index of the peer that is the current device.
fn find_me(peers: &Vec<Peer>) -> (res: usize)
    requires
        me_index_conn(peers@) >= 0,
    ensures
        res == me_index_conn(peers@),
        res < peers@.len(),
{
    proof {
        lemma_me_index_conn(peers@);
    }
    let ghost k = me_index_conn(peers@);
    let n = peers.len();
    let mut i: usize = 0;
    while i < n
        invariant
            n == peers@.len(),
            0 <= i <= k < n,
            k == me_index_conn(peers@),
            peers@[k].addr is None,
            forall|j: int| 0 <= j < k ==> (#[trigger] peers@[j]).addr is Some,
        decreases n - i,
    {
        if peers[i].addr.is_none() {
            return i;
        }
        i = i + 1;
    }
    0
}

impl FrameSyncer {
    /// Turn the running game back into a connection.
    ///
    /// Used when the game exits back into launcher
    /// so that players can launch another app.
    pub fn into_connection(self) -> (res: Connection)
        ensures
            res.app is None,
            res.seed is None,
            res.last_sync is None,
            res.last_ready is None,
            res.started_at is None,
            res.peers@.len() == self.peers@.len(),
            forall|i: int| 0 <= i < self.peers@.len() ==> {
                let p = #[trigger] res.peers@[i];
                &&& p.addr == self.peers@[i].addr
                &&& p.name == self.peers@[i].name
                &&& p.intro is None
            },
    {
        let ghost old_peers = self.peers@;
        let mut src = self.peers;
        let mut rev: Vec<Peer> = Vec::new();
        let n = src.len();
        while src.len() > 0
            invariant
                n == old_peers.len(),
                src@ == old_peers.take(src@.len() as int),
                src@.len() <= n,
                rev@.len() == n - src@.len(),
                forall|j: int| 0 <= j < rev@.len() ==> {
                    let p = #[trigger] rev@[j];
                    &&& p.addr == old_peers[n - 1 - j].addr
                    &&& p.name == old_peers[n - 1 - j].name
                    &&& p.intro is None
                },
            decreases src@.len(),
        {
            let ghost before = src@;
            assert(old_peers.take(src@.len() - 1) =~= before.drop_last());
            let peer = src.pop().unwrap();
            rev.push(Peer { addr: peer.addr, name: peer.name, intro: None });
        }
        let mut peers: Vec<Peer> = Vec::new();
        while rev.len() > 0
            invariant
                n == old_peers.len(),
                peers@.len() + rev@.len() == n,
                forall|j: int| 0 <= j < rev@.len() ==> {
                    let p = #[trigger] rev@[j];
                    &&& p.addr == old_peers[n - 1 - j].addr
                    &&& p.name == old_peers[n - 1 - j].name
                    &&& p.intro is None
                },
                forall|j: int| 0 <= j < peers@.len() ==> {
                    let p = #[trigger] peers@[j];
                    &&& p.addr == old_peers[j].addr
                    &&& p.name == old_peers[j].name
                    &&& p.intro is None
                },
            decreases rev@.len(),
        {
            let ghost before = rev@;
            let p = rev.pop().unwrap();
            assert(p == before[before.len() - 1]);
            peers.push(p);
        }
        Connection { app: None, seed: None, peers, last_sync: None, last_ready: None, started_at: None }
    }
}

} // verus!
