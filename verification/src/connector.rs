use vstd::prelude::*;
use crate::config::{id_bytes, short_str, short_string, spec_valid_id, validate_id};
use crate::connection::{Connection, Peer};
use crate::net::{Addr, NetcodeError, elapsed};
use vstd::string::StringSliceAdditionalSpecFns;

verus! {

/// How long (in milliseconds) to wait before advertising the device again.
pub const ADVERTISE_EVERY: u64 = 100;
/// The most other devices that can connect.
pub const MAX_CONNECT_PEERS: usize = 7;

/// What the connecting scene asks the connector to do.
#[derive(Debug, Clone, Copy, PartialEq, Eq, Structural)]
pub enum ConnectStatus {
    /// Stopped listening, [Connector] should do nothing.
    Stopped,
    /// Cancelled connecting, destroy [Connector].
    Cancelled,
    /// Finished connecting, proceed to multiplayer.
    Finished,
}

/// What a device tells about itself when connecting.
pub struct Intro {
    /// The device name.
    pub name: heapless::String<16>,
    /// The OS version.
    pub version: u16,
}

/// A device that introduced itself.
pub struct PeerInfo {
    pub addr: Addr,
    pub intro: Intro,
}

/// Connector establishes network connection between devices.
///
/// If you play games with friends, you establish the connection once
/// at the beginning of the evening and it stays on as long as
/// all the devices are turned on.
pub struct Connector {
    /// This device's intro.
    pub me: Intro,
    /// The last time (in milliseconds) the device advertised itself.
    pub last_advertisement: Option<u64>,
    /// The devices that said hello.
    pub peer_addrs: Vec<Addr>,
    /// The devices that introduced themselves.
    pub peer_infos: Vec<PeerInfo>,
    /// If the network interface (WiFi) has been activated.
    pub started: bool,
    /// If the device should not accept any new connections.
    pub stopped: bool,
    /// What the connecting scene asked for.
    pub status: Option<ConnectStatus>,
}

/// True if an item of the sequence is the address.
pub open spec fn has_addr_in(addrs: Seq<Addr>, addr: Addr) -> bool {
    exists|i: int| 0 <= i < addrs.len() && addrs[i] == addr
}

/// The index of the first peer info with the given address, or -1.
pub open spec fn info_index(infos: Seq<PeerInfo>, addr: Addr) -> int
    decreases infos.len(),
{
    if infos.len() == 0 {
        -1
    } else if infos[0].addr == addr {
        0
    } else {
        let i = info_index(infos.drop_first(), addr);
        if i < 0 { -1 } else { i + 1 }
    }
}

proof fn lemma_info_index(infos: Seq<PeerInfo>, addr: Addr)
    ensures
        -1 <= info_index(infos, addr) < infos.len(),
        info_index(infos, addr) >= 0 ==> infos[info_index(infos, addr)].addr == addr,
        forall|k: int| 0 <= k < infos.len() && (info_index(infos, addr) < 0 || k < info_index(infos, addr))
            ==> (#[trigger] infos[k]).addr != addr,
    decreases infos.len(),
{
    if infos.len() > 0 && infos[0].addr != addr {
        lemma_info_index(infos.drop_first(), addr);
        assert forall|k: int| 0 <= k < infos.len() && (info_index(infos, addr) < 0 || k < info_index(infos, addr))
            implies (#[trigger] infos[k]).addr != addr by {
            if k > 0 {
                assert(infos[k] == infos.drop_first()[k - 1]);
            }
        }
    }
}

/// The index of the first occurrence of the address, or -1.
pub open spec fn addr_index(addrs: Seq<Addr>, addr: Addr) -> int
    decreases addrs.len(),
{
    if addrs.len() == 0 {
        -1
    } else if addrs[0] == addr {
        0
    } else {
        let i = addr_index(addrs.drop_first(), addr);
        if i < 0 { -1 } else { i + 1 }
    }
}

proof fn lemma_addr_index(addrs: Seq<Addr>, addr: Addr)
    ensures
        -1 <= addr_index(addrs, addr) < addrs.len(),
        addr_index(addrs, addr) >= 0 ==> addrs[addr_index(addrs, addr)] == addr,
        forall|k: int| 0 <= k < addrs.len() && (addr_index(addrs, addr) < 0 || k < addr_index(addrs, addr))
            ==> #[trigger] addrs[k] != addr,
        addr_index(addrs, addr) < 0 <==> !has_addr_in(addrs, addr),
    decreases addrs.len(),
{
    if addrs.len() > 0 && addrs[0] != addr {
        lemma_addr_index(addrs.drop_first(), addr);
        assert forall|k: int| 0 <= k < addrs.len() && (addr_index(addrs, addr) < 0 || k < addr_index(addrs, addr))
            implies #[trigger] addrs[k] != addr by {
            if k > 0 {
                assert(addrs[k] == addrs.drop_first()[k - 1]);
            }
        }
        if has_addr_in(addrs.drop_first(), addr) {
            let j = choose|j: int| 0 <= j < addrs.drop_first().len() && addrs.drop_first()[j] == addr;
            assert(addrs[j + 1] == addr);
        }
        if has_addr_in(addrs, addr) {
            let j = choose|j: int| 0 <= j < addrs.len() && addrs[j] == addr;
            assert(addrs.drop_first()[j - 1] == addr);
        }
    }
}

fn find_addr(addrs: &Vec<Addr>, addr: Addr) -> (res: Option<usize>)
    ensures
        match res {
            Some(i) => i == addr_index(addrs@, addr) && i < addrs@.len(),
            None => addr_index(addrs@, addr) < 0,
        },
{
    proof {
        lemma_addr_index(addrs@, addr);
    }
    let n = addrs.len();
    let mut i: usize = 0;
    while i < n
        invariant
            n == addrs@.len(),
            0 <= i <= n,
            -1 <= addr_index(addrs@, addr) < n,
            addr_index(addrs@, addr) >= 0 ==> addrs@[addr_index(addrs@, addr)] == addr,
            forall|k: int| 0 <= k < i ==> #[trigger] addrs@[k] != addr,
            forall|k: int| 0 <= k < n && (addr_index(addrs@, addr) < 0 || k < addr_index(addrs@, addr))
                ==> #[trigger] addrs@[k] != addr,
        decreases n - i,
    {
        if addrs[i] == addr {
            return Some(i);
        }
        i = i + 1;
    }
    None
}

pub(crate) fn find_info(infos: &Vec<PeerInfo>, addr: Addr) -> (res: Option<usize>)
    ensures
        match res {
            Some(i) => i == info_index(infos@, addr) && i < infos@.len(),
            None => info_index(infos@, addr) < 0,
        },
{
    proof {
        lemma_info_index(infos@, addr);
    }
    let n = infos.len();
    let mut i: usize = 0;
    while i < n
        invariant
            n == infos@.len(),
            0 <= i <= n,
            -1 <= info_index(infos@, addr) < n,
            info_index(infos@, addr) >= 0 ==> infos@[info_index(infos@, addr)].addr == addr,
            forall|k: int| 0 <= k < i ==> (#[trigger] infos@[k]).addr != addr,
            forall|k: int| 0 <= k < n && (info_index(infos@, addr) < 0 || k < info_index(infos@, addr))
                ==> (#[trigger] infos@[k]).addr != addr,
        decreases n - i,
    {
        if infos[i].addr == addr {
            return Some(i);
        }
        i = i + 1;
    }
    None
}

impl Connector {
    /// At most [`MAX_CONNECT_PEERS`] devices said hello and introduced themselves.
    pub open spec fn wf(&self) -> bool {
        &&& self.peer_addrs@.len() <= MAX_CONNECT_PEERS
        &&& self.peer_infos@.len() <= MAX_CONNECT_PEERS
    }

    pub fn new(me: Intro) -> (res: Self)
        ensures
            res.wf(),
            res.me == me,
            res.last_advertisement is None,
            res.peer_addrs@.len() == 0,
            res.peer_infos@.len() == 0,
            !res.started,
            !res.stopped,
            res.status is None,
    {
        Connector {
            me,
            last_advertisement: None,
            peer_addrs: Vec::new(),
            peer_infos: Vec::new(),
            started: false,
            stopped: false,
            status: None,
        }
    }

    /// Stop announcing and accepting new connections.
    pub fn pause(&mut self) -> (res: Result<(), NetcodeError>)
        ensures
            res is Ok,
            final(self).stopped,
            final(self).me == old(self).me,
            final(self).peer_addrs == old(self).peer_addrs,
            final(self).peer_infos == old(self).peer_infos,
            final(self).started == old(self).started,
            final(self).status == old(self).status,
            final(self).last_advertisement == old(self).last_advertisement,
    {
        self.stopped = true;
        Ok(())
    }

    /// Check that all connected devices run the same OS version as this one.
    pub fn validate(&self) -> (res: Result<(), &'static str>)
        ensures
            res is Ok <==> forall|i: int| 0 <= i < self.peer_infos@.len() ==> (#[trigger] self.peer_infos@[i]).intro.version
                == self.me.version,
    {
        let n = self.peer_infos.len();
        let mut i: usize = 0;
        while i < n
            invariant
                n == self.peer_infos@.len(),
                0 <= i <= n,
                forall|k: int| 0 <= k < i ==> (#[trigger] self.peer_infos@[k]).intro.version == self.me.version,
            decreases n - i,
        {
            if self.peer_infos[i].intro.version != self.me.version {
                return Err("devices have incompatible OS versions; please, update.");
            }
            i = i + 1;
        }
        Ok(())
    }

    /// Start the network on the first update. True if it must be started now.
    pub fn take_start(&mut self) -> (res: bool)
        ensures
            res == !old(self).started,
            final(self).started,
            final(self).me == old(self).me,
            final(self).peer_addrs == old(self).peer_addrs,
            final(self).peer_infos == old(self).peer_infos,
            final(self).stopped == old(self).stopped,
            final(self).status == old(self).status,
            final(self).last_advertisement == old(self).last_advertisement,
    {
        if self.started {
            return false;
        }
        self.started = true;
        true
    }

    /// Check if it is time to advertise the device, and note the time if so.
    /// A stopped connector doesn't advertise.
    pub fn advertise_due(&mut self, now: u64) -> (res: bool)
        ensures
            res == (!old(self).stopped && !(old(self).last_advertisement matches Some(prev) && elapsed(now, prev)
                < ADVERTISE_EVERY)),
            final(self).last_advertisement == (if res { Some(now) } else { old(self).last_advertisement }),
            final(self).me == old(self).me,
            final(self).peer_addrs == old(self).peer_addrs,
            final(self).peer_infos == old(self).peer_infos,
            final(self).stopped == old(self).stopped,
            final(self).started == old(self).started,
            final(self).status == old(self).status,
    {
        if self.stopped {
            return false;
        }
        if let Some(prev) = self.last_advertisement {
            if now.saturating_sub(prev) < ADVERTISE_EVERY {
                return false;
            }
        }
        self.last_advertisement = Some(now);
        true
    }

    /// Handle a hello from a device: remember it (unless stopped or known already).
    /// On success, the device must be sent this device's intro.
    pub fn handle_hello(&mut self, addr: Addr) -> (res: Result<(), NetcodeError>)
        requires
            old(self).wf(),
        ensures
            final(self).wf(),
            ({
                let adds = !old(self).stopped && !has_addr_in(old(self).peer_addrs@, addr);
                &&& (adds && old(self).peer_addrs@.len() >= MAX_CONNECT_PEERS) ==> res == Err::<(), NetcodeError>(
                    NetcodeError::PeerListFull,
                ) && final(self).peer_addrs@ == old(self).peer_addrs@
                &&& (adds && old(self).peer_addrs@.len() < MAX_CONNECT_PEERS) ==> res is Ok
                    && final(self).peer_addrs@ == old(self).peer_addrs@.push(addr)
                &&& !adds ==> res is Ok && final(self).peer_addrs@ == old(self).peer_addrs@
            }),
            final(self).me == old(self).me,
            final(self).peer_infos == old(self).peer_infos,
            final(self).stopped == old(self).stopped,
            final(self).started == old(self).started,
            final(self).status == old(self).status,
            final(self).last_advertisement == old(self).last_advertisement,
    {
        proof {
            lemma_addr_index(self.peer_addrs@, addr);
        }
        if !self.stopped && find_addr(&self.peer_addrs, addr).is_none() {
            if self.peer_addrs.len() >= MAX_CONNECT_PEERS {
                return Err(NetcodeError::PeerListFull);
            }
            self.peer_addrs.push(addr);
        }
        Ok(())
    }

    /// Handle the intro of a device: remember it (unless stopped or known already).
    /// A name that is not a valid ID becomes "anonymous".
    pub fn handle_intro(&mut self, addr: Addr, intro: Intro) -> (res: Result<(), NetcodeError>)
        requires
            old(self).wf(),
        ensures
            final(self).wf(),
            ({
                let adds = !old(self).stopped && info_index(old(self).peer_infos@, addr) < 0;
                &&& (adds && old(self).peer_infos@.len() >= MAX_CONNECT_PEERS) ==> res == Err::<(), NetcodeError>(
                    NetcodeError::PeerListFull,
                ) && final(self).peer_infos@ == old(self).peer_infos@
                &&& (adds && old(self).peer_infos@.len() < MAX_CONNECT_PEERS) ==> {
                    let info = final(self).peer_infos@.last();
                    &&& res is Ok
                    &&& final(self).peer_infos@.len() == old(self).peer_infos@.len() + 1
                    &&& final(self).peer_infos@.drop_last() == old(self).peer_infos@
                    &&& info.addr == addr
                    &&& info.intro.version == intro.version
                    &&& id_bytes(info.intro.name) == (if spec_valid_id(id_bytes(intro.name)) {
                        id_bytes(intro.name)
                    } else {
                        "anonymous"@.map_values(|c: char| c as u8)
                    })
                }
                &&& !adds ==> res is Ok && final(self).peer_infos@ == old(self).peer_infos@
            }),
            final(self).me == old(self).me,
            final(self).peer_addrs == old(self).peer_addrs,
            final(self).stopped == old(self).stopped,
            final(self).started == old(self).started,
            final(self).status == old(self).status,
            final(self).last_advertisement == old(self).last_advertisement,
    {
        if self.stopped {
            return Ok(());
        }
        if find_info(&self.peer_infos, addr).is_some() {
            return Ok(());
        }
        let mut intro = intro;
        if validate_id(short_str(&intro.name)).is_err() {
            intro.name = anonymous();
        }
        if self.peer_infos.len() >= MAX_CONNECT_PEERS {
            return Err(NetcodeError::PeerListFull);
        }
        let ghost before = self.peer_infos@;
        self.peer_infos.push(PeerInfo { addr, intro });
        assert(self.peer_infos@.drop_last() =~= before);
        Ok(())
    }

    /// Handle a disconnect: forget the device. Once stopped, a disconnect is an
    /// error that names the device (`???` if it never introduced itself).
    pub fn handle_disconnect(&mut self, addr: Addr) -> (res: Result<(), NetcodeError>)
        ensures
            final(self).peer_infos@ == (if info_index(old(self).peer_infos@, addr) >= 0 {
                old(self).peer_infos@.remove(info_index(old(self).peer_infos@, addr))
            } else {
                old(self).peer_infos@
            }),
            final(self).peer_addrs@ == (if addr_index(old(self).peer_addrs@, addr) >= 0 {
                old(self).peer_addrs@.remove(addr_index(old(self).peer_addrs@, addr))
            } else {
                old(self).peer_addrs@
            }),
            old(self).stopped ==> (res matches Err(NetcodeError::Disconnected(name)) && id_bytes(name) == (
            if info_index(old(self).peer_infos@, addr) >= 0 {
                id_bytes(old(self).peer_infos@[info_index(old(self).peer_infos@, addr)].intro.name)
            } else {
                "???"@.map_values(|c: char| c as u8)
            })),
            !old(self).stopped ==> res is Ok,
            final(self).me == old(self).me,
            final(self).stopped == old(self).stopped,
            final(self).started == old(self).started,
            final(self).status == old(self).status,
            final(self).last_advertisement == old(self).last_advertisement,
    {
        let mut name = unknown_name();
        if let Some(i) = find_info(&self.peer_infos, addr) {
            let info = self.peer_infos.remove(i);
            name = info.intro.name;
        }
        if let Some(i) = find_addr(&self.peer_addrs, addr) {
            self.peer_addrs.remove(i);
        }
        if self.stopped {
            return Err(NetcodeError::Disconnected(name));
        }
        Ok(())
    }
}

/// The name given to a device whose name is not a valid ID.
fn anonymous() -> (res: heapless::String<16>)
    ensures
        id_bytes(res) == "anonymous"@.map_values(|c: char| c as u8),
{
    let s = "anonymous";
    proof {
        reveal_strlit("anonymous");
        broadcast use vstd::string::is_ascii_spec_bytes;
        assert(vstd::string::is_ascii(s));
        assert(s.spec_bytes() =~= "anonymous"@.map_values(|c: char| c as u8));
    }
    match short_string(s) {
        Some(h) => h,
        None => short_string("").unwrap(),
    }
}

/// The name shown for a device that never introduced itself.
fn unknown_name() -> (res: heapless::String<16>)
    ensures
        id_bytes(res) == "???"@.map_values(|c: char| c as u8),
{
    let s = "???";
    proof {
        reveal_strlit("???");
        broadcast use vstd::string::is_ascii_spec_bytes;
        assert(vstd::string::is_ascii(s));
        assert(s.spec_bytes() =~= "???"@.map_values(|c: char| c as u8));
    }
    match short_string(s) {
        Some(h) => h,
        None => short_string("").unwrap(),
    }
}

/// The key by which the connected peers are ordered: the address, this device
/// taking its own local address.
pub open spec fn peer_key(p: Peer, local: Addr) -> u64 {
    match p.addr {
        Some(a) => a.0,
        None => local.0,
    }
}

/// The peers of a new connection before ordering: each introduced device, then this one.
pub open spec fn unsorted_peers(infos: Seq<PeerInfo>, me: heapless::String<16>) -> Seq<Peer> {
    Seq::new(infos.len(), |i: int| Peer { addr: Some(infos[i].addr), name: infos[i].intro.name, intro: None }).push(
        Peer { addr: None, name: me, intro: None },
    )
}

/// The peers are ordered by their keys.
pub open spec fn sorted_by_key(s: Seq<Peer>, local: Addr) -> bool {
    forall|i: int, j: int| 0 <= i < j < s.len() ==> peer_key(#[trigger] s[i], local) <= peer_key(#[trigger] s[j], local)
}

impl Connector {
    /// Turn the connector into a connection: the introduced devices and this one,
    /// ordered by address so that every device sees the same order.
    pub fn finalize(self, local_addr: Addr) -> (res: Connection)
        ensures
            res.app is None,
            res.seed is None,
            res.last_sync is None,
            res.last_ready is None,
            res.started_at is None,
            sorted_by_key(res.peers@, local_addr),
            res.peers@.to_multiset() == unsorted_peers(self.peer_infos@, self.me.name).to_multiset(),
    {
        broadcast use vstd::seq_lib::group_to_multiset_ensures, vstd::multiset::group_multiset_axioms;

        let ghost all = unsorted_peers(self.peer_infos@, self.me.name);
        let ghost infos = self.peer_infos@;
        let Connector { me, peer_infos, .. } = self;
        let mut infos_left = peer_infos;
        let mut src: Vec<Peer> = Vec::new();
        proof {
            assert(infos.take(infos.len() as int) =~= infos);
            assert(src@.to_multiset() =~= vstd::multiset::Multiset::empty()) by {
                vstd::seq_lib::to_multiset_len(src@);
                vstd::multiset::lemma_multiset_empty_len(src@.to_multiset());
            }
        }
        while infos_left.len() > 0
            invariant
                infos_left@ == infos.take(infos_left@.len() as int),
                infos_left@.len() <= infos.len(),
                src@.to_multiset().add(unsorted_peers(infos_left@, me.name).to_multiset()) == all.to_multiset(),
            decreases infos_left@.len(),
        {
            let ghost before = infos_left@;
            let info = infos_left.pop().unwrap();
            let p = Peer { addr: Some(info.addr), name: info.intro.name, intro: None };
            proof {
                assert(infos.take(infos_left@.len() as int) =~= before.drop_last());
                let u0 = unsorted_peers(before, me.name);
                let u1 = unsorted_peers(infos_left@, me.name);
                assert(u0 =~= u1.insert(u1.len() - 1, p));
                vstd::seq_lib::to_multiset_insert(u1, u1.len() - 1, p);
                vstd::seq_lib::to_multiset_build(src@, p);
            }
            src.push(p);
        }
        proof {
            assert(infos.take(infos.len() as int) =~= infos);
        }
        let ghost u = unsorted_peers(infos_left@, me.name);
        assert(u =~= seq![Peer { addr: None, name: me.name, intro: None }]);
        src.push(Peer { addr: None, name: me.name, intro: None });
        proof {
            vstd::seq_lib::to_multiset_build(src@.drop_last(), Peer { addr: None, name: me.name, intro: None });
            assert(src@.drop_last().push(Peer { addr: None, name: me.name, intro: None }) =~= src@);
            assert(u.to_multiset() =~= vstd::multiset::Multiset::empty().insert(Peer { addr: None, name: me.name, intro: None })) by {
                vstd::seq_lib::to_multiset_build(Seq::<Peer>::empty(), Peer { addr: None, name: me.name, intro: None });
                assert(Seq::<Peer>::empty().push(Peer { addr: None, name: me.name, intro: None }) =~= u);
                assert(Seq::<Peer>::empty().to_multiset() =~= vstd::multiset::Multiset::empty()) by {
                    vstd::seq_lib::to_multiset_len(Seq::<Peer>::empty());
                    vstd::multiset::lemma_multiset_empty_len(Seq::<Peer>::empty().to_multiset());
                }
            }
            assert(src@.to_multiset() =~= all.to_multiset());
        }
        let mut out: Vec<Peer> = Vec::new();
        while src.len() > 0
            invariant
                sorted_by_key(out@, local_addr),
                forall|i: int, j: int| 0 <= i < out@.len() && 0 <= j < src@.len() ==> peer_key(
                    #[trigger] out@[i],
                    local_addr,
                ) <= peer_key(#[trigger] src@[j], local_addr),
                out@.to_multiset().add(src@.to_multiset()) == all.to_multiset(),
            decreases src@.len(),
        {
            let n = src.len();
            let mut best: usize = 0;
            let mut k: usize = 1;
            while k < n
                invariant
                    n == src@.len(),
                    0 <= best < n,
                    1 <= k <= n,
                    forall|j: int| 0 <= j < k ==> peer_key(src@[best as int], local_addr) <= peer_key(
                        #[trigger] src@[j],
                        local_addr,
                    ),
                decreases n - k,
            {
                if key_of(&src[k], local_addr) < key_of(&src[best], local_addr) {
                    best = k;
                }
                k = k + 1;
            }
            let ghost before = src@;
            let p = src.remove(best);
            proof {
                vstd::seq_lib::to_multiset_remove(before, best as int);
                vstd::seq_lib::to_multiset_build(out@, p);
                assert forall|j: int| 0 <= j < src@.len() implies peer_key(p, local_addr) <= peer_key(
                    #[trigger] src@[j],
                    local_addr,
                ) by {
                    if j < best {
                        assert(src@[j] == before[j]);
                    } else {
                        assert(src@[j] == before[j + 1]);
                    }
                }
                assert forall|i: int, j: int| 0 <= i < out@.len() && 0 <= j < src@.len() implies peer_key(
                    #[trigger] out@[i],
                    local_addr,
                ) <= peer_key(#[trigger] src@[j], local_addr) by {
                    if j < best {
                        assert(src@[j] == before[j]);
                    } else {
                        assert(src@[j] == before[j + 1]);
                    }
                }
                assert(src@ =~= before.remove(best as int));
                assert(before[best as int] == p);
                assert(before.contains(p));
                vstd::seq_lib::to_multiset_contains(before, p);
                assert(before.to_multiset().count(p) > 0);
                assert(before.to_multiset() =~= src@.to_multiset().insert(p));
            }
            let ghost out_before = out@;
            out.push(p);
            proof {
                assert forall|i: int, j: int| 0 <= i < j < out@.len() implies peer_key(
                    #[trigger] out@[i],
                    local_addr,
                ) <= peer_key(#[trigger] out@[j], local_addr) by {
                    if j < out@.len() - 1 {
                        assert(out@[i] == out_before[i]);
                        assert(out@[j] == out_before[j]);
                    } else {
                        if i < out@.len() - 1 {
                            assert(out@[i] == out_before[i]);
                            assert(peer_key(out_before[i], local_addr) <= peer_key(before[best as int], local_addr));
                        }
                    }
                }
                assert(out@.to_multiset().add(src@.to_multiset()) =~= all.to_multiset());
            }
        }
        proof {
            vstd::seq_lib::to_multiset_len(src@);
            vstd::multiset::lemma_multiset_empty_len(src@.to_multiset());
            assert(out@.to_multiset().add(vstd::multiset::Multiset::empty()) =~= out@.to_multiset());
        }
        Connection { app: None, seed: None, peers: out, last_sync: None, last_ready: None, started_at: None }
    }
}

/// The ordering key of a peer, see [`peer_key`].
fn key_of(p: &Peer, local: Addr) -> (res: u64)
    ensures
        res == peer_key(*p, local),
{
    match p.addr {
        Some(a) => a.0,
        None => local.0,
    }
}

/// The peer map marks the peer with the given index (bit `i`, the lowest bit first).
pub open spec fn marked(peer_map: u32, i: int) -> bool {
    0 <= i < 32 && (peer_map >> (i as u32)) & 1 == 1
}

/// The ready map over the first `n` peers, as the readiness check builds it: for each
/// peer in turn the map is shifted right, and its lowest bit set if the peer is marked
/// and ready. `None` if a marked, ready peer has another peer list hash.
pub open spec fn ready_map(peer_map: u32, hash: u32, ready: Seq<u32>, n: int) -> Option<u32>
    decreases n,
{
    if n <= 0 {
        Some(0)
    } else {
        match ready_map(peer_map, hash, ready, n - 1) {
            None => None,
            Some(m) => {
                let shifted = m >> 1u32;
                if marked(peer_map, n - 1) && ready[n - 1] != 0 {
                    if ready[n - 1] != hash { None } else { Some(shifted | 1u32) }
                } else {
                    Some(shifted)
                }
            },
        }
    }
}

/// Once a hash mismatch is found, the result stays a mismatch.
proof fn lemma_ready_none(peer_map: u32, hash: u32, ready: Seq<u32>, a: int, b: int)
    requires
        0 <= a <= b,
        ready_map(peer_map, hash, ready, a) is None,
    ensures
        ready_map(peer_map, hash, ready, b) is None,
    decreases b - a,
{
    if a < b {
        lemma_ready_none(peer_map, hash, ready, a, b - 1);
    }
}

/// Check which of the marked peers are ready to connect with the same peer list
/// (given by its hash). `ready` holds each peer's announced hash, 0 if not ready.
/// Returns `u32::MAX` if a ready peer has another peer list.
pub fn get_ready_map(peer_map: u32, hash: u32, ready: &[u32]) -> (res: u32)
    ensures
        res == match ready_map(peer_map, hash, ready@, ready@.len() as int) {
            Some(m) => m,
            None => u32::MAX,
        },
{
    let n = ready.len();
    let mut map: u32 = 0;
    let mut bits = peer_map;
    let mut i: usize = 0;
    assert(peer_map >> 0u32 == peer_map) by (bit_vector);
    while i < n
        invariant
            n == ready@.len(),
            0 <= i <= n,
            ready_map(peer_map, hash, ready@, i as int) == Some(map),
            bits == (if i < 32 { peer_map >> (i as u32) } else { 0 }),
        decreases n - i,
    {
        let ghost m0 = map;
        map = map >> 1u32;
        proof {
            if i < 32 {
                let iu = i as u32;
                assert(bits & 1 == 1 <==> marked(peer_map, i as int));
                assert(iu < 31 ==> (peer_map >> iu) >> 1u32 == peer_map >> ((iu + 1) as u32)) by (bit_vector);
                assert(iu == 31 ==> (peer_map >> iu) >> 1u32 == 0) by (bit_vector);
            } else {
                assert(bits == 0);
                assert(0u32 & 1 == 0) by (bit_vector);
                assert(0u32 >> 1u32 == 0) by (bit_vector);
            }
        }
        if bits & 1 == 1 && ready[i] != 0 {
            map = map | 1;
            if ready[i] != hash {
                proof {
                    assert(ready_map(peer_map, hash, ready@, i + 1) is None);
                    lemma_ready_none(peer_map, hash, ready@, i + 1, n as int);
                }
                return u32::MAX;
            }
        }
        bits = bits >> 1u32;
        i = i + 1;
    }
    map
}

/// The indices among the first `n` peers that the peer map doesn't mark, highest first.
pub open spec fn unmarked_desc(peer_map: u32, n: int) -> Seq<usize>
    decreases n,
{
    if n <= 0 {
        Seq::empty()
    } else if !marked(peer_map, n - 1) {
        seq![(n - 1) as usize] + unmarked_desc(peer_map, n - 1)
    } else {
        unmarked_desc(peer_map, n - 1)
    }
}

/// The indices of the peers that the user didn't accept, highest first, so that
/// removing them one by one keeps the remaining indices right.
pub fn peers_to_remove(peer_map: u32, n: usize) -> (res: Vec<usize>)
    ensures
        res@ == unmarked_desc(peer_map, n as int),
{
    let mut out: Vec<usize> = Vec::new();
    let mut i: usize = n;
    while i > 0
        invariant
            i <= n,
            out@ + unmarked_desc(peer_map, i as int) == unmarked_desc(peer_map, n as int),
        decreases i,
    {
        let k = i - 1;
        let is_marked = k < 32 && (peer_map >> (k as u32)) & 1 == 1;
        if !is_marked {
            let ghost before = out@;
            out.push(k);
            assert(out@ + unmarked_desc(peer_map, k as int) =~= before + unmarked_desc(peer_map, i as int));
        }
        i = k;
    }
    assert(out@ + Seq::<usize>::empty() =~= out@);
    out
}

} // verus!
