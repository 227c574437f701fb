use firefly_runtime::config::FullID;
use firefly_runtime::connection::{AppIntro, Connection, ConnectionStatus, Peer};
use firefly_runtime::error::HostError;
use firefly_runtime::input::{InputState, Pad};
use firefly_runtime::net::{
    friend_peer,
    Addr, Extra, FSPeer, FrameState, FrameSyncer, Input, NetcodeError, SyncerMessage, SyncerReply,
};
use firefly_runtime::ring::RingBuf;

fn name(s: &str) -> heapless::String<16> {
    heapless::String::try_from(s).unwrap()
}

fn peer(addr: Option<u64>, n: &str) -> FSPeer {
    FSPeer {
        addr: addr.map(Addr),
        name: name(n),
        friend_id: None,
        states: RingBuf::new(),
        badges: Vec::new(),
        scores: Vec::new(),
        stash: Vec::new(),
    }
}

fn syncer() -> FrameSyncer {
    FrameSyncer {
        frame: 0,
        peers: vec![peer(Some(7), "alice"), peer(None, "me"), peer(Some(9), "bob")],
        device_seed: 1,
        shared_seed: 2,
        last_sync: None,
        last_advance: None,
        app: FullID::from_str("lux", "snek").unwrap(),
    }
}

fn state(frame: u32, buttons: u8, extra: Extra) -> FrameState {
    FrameState { frame, input: Input { pad: None, buttons }, extra }
}

#[test]
fn syncer_advance_stores_my_state() {
    let mut s = syncer();
    let out = s.advance(state(0, 3, Extra::Empty), 100);
    assert_eq!(out.len(), 2);
    assert_eq!(out[0].frame, 1);
    assert_eq!(out[1].frame, 2);
    assert_eq!(s.frame, 1);
    assert_eq!(s.last_advance, Some(100));
    assert_eq!(s.last_sync, Some(100));
    assert_eq!(s.my_state(1).unwrap().input.buttons, 3);
    assert_eq!(s.my_state(2).unwrap().frame, 2);
    // only this device has a state for the current frame
    assert!(!s.ready());
    assert_eq!(s.missing_states(), vec![Addr(7), Addr(9)]);

    let out = s.advance(state(0, 4, Extra::Empty), 200);
    assert_eq!(out.len(), 1);
    assert_eq!(out[0].frame, 3);
    assert_eq!(s.my_state(3).unwrap().input.buttons, 4);
}

#[test]
fn syncer_handles_messages() {
    let mut s = syncer();
    s.advance(state(0, 1, Extra::Empty), 0);
    let r = s.handle_message(Addr(7), SyncerMessage::State(state(1, 0b10000, Extra::Rand(5))));
    assert_eq!(r, Ok(SyncerReply::Nothing));
    let r = s.handle_message(Addr(9), SyncerMessage::State(state(1, 2, Extra::Rand(6))));
    assert_eq!(r, Ok(SyncerReply::Nothing));
    assert!(s.ready());
    assert!(s.missing_states().is_empty());
    assert_eq!(s.get_seed(), 5 ^ 6);
    let input = s.get_combined_input();
    assert_eq!(input.buttons, 0b10011);
    assert!(input.pad.is_none());

    let r = s.handle_message(Addr(7), SyncerMessage::ReqState(1));
    assert_eq!(r, Ok(SyncerReply::State(state(1, 1, Extra::Empty))));
    let r = s.handle_message(Addr(7), SyncerMessage::ReqState(4));
    assert_eq!(r, Ok(SyncerReply::Nothing));
    let r = s.handle_message(Addr(7), SyncerMessage::ReqStart);
    assert_eq!(r, Ok(SyncerReply::Start));
    let r = s.handle_message(Addr(8), SyncerMessage::ReqStart);
    assert_eq!(r, Err(NetcodeError::UnknownPeer));
    let r = s.handle_message(Addr(9), SyncerMessage::Other);
    assert_eq!(r, Err(NetcodeError::UnexpectedRequest));
}

#[test]
fn syncer_now_and_peers() {
    let mut s = syncer();
    assert_eq!(s.get_now(), None);
    s.advance(state(0, 0, Extra::Now(50)), 0);
    s.handle_state(Addr(7), state(1, 0, Extra::Now(40)));
    s.handle_state(Addr(9), state(1, 0, Extra::Empty));
    assert_eq!(s.get_now(), Some(40));
    assert_eq!(s.get_me(), 1);
    assert_eq!(s.get_peers(), 0b111);
    assert_eq!(s.get_input(0).unwrap().unwrap().buttons, 0);
    assert_eq!(s.get_input(3), Err(HostError::UnknownPeer(3)));
    assert!(s.get_input(255).unwrap().is_some());
}

#[test]
fn syncer_timers() {
    let mut s = syncer();
    s.advance(state(0, 0, Extra::Empty), 1000);
    assert!(!s.timed_out(1000 + 10_000));
    assert!(s.timed_out(1000 + 10_001));
    assert!(!s.sync_due(1500));
    assert!(s.sync_due(3000));
    assert_eq!(s.last_sync, Some(3000));
    s.advance(state(0, 0, Extra::Empty), 5000);
    s.advance(state(0, 0, Extra::Empty), 5000);
    assert_eq!(s.frame, 3);
    assert!(s.timed_out(5000 + 5001));
}

#[test]
fn merge_inputs() {
    let a = InputState { pad: None, buttons: 1 };
    let b = InputState { pad: Some(Pad { x: 1, y: 2 }), buttons: 4 };
    let m = a.merge(&b);
    assert_eq!(m.buttons, 5);
    assert_eq!(m.pad, Some(Pad { x: 1, y: 2 }));
    let m = b.merge(&InputState { pad: Some(Pad { x: 9, y: 9 }), buttons: 0 });
    assert_eq!(m.pad, Some(Pad { x: 1, y: 2 }));
}

fn intro(seed: u32) -> AppIntro {
    AppIntro { badges: vec![1, 2], scores: vec![3], stash: vec![4], seed }
}

fn connection() -> Connection {
    Connection {
        app: None,
        seed: None,
        peers: vec![
            Peer { addr: Some(Addr(3)), name: name("bob"), intro: None },
            Peer { addr: None, name: name("me"), intro: None },
        ],
        last_sync: None,
        last_ready: None,
        started_at: None,
    }
}

#[test]
fn connection_launch() {
    let mut c = connection();
    assert_eq!(c.status(), ConnectionStatus::Waiting);
    assert_eq!(c.get_seed(11), 11);
    assert_eq!(c.get_seed(12), 11);
    assert!(c.set_app(FullID::from_str("lux", "snek").unwrap(), intro(11), 100));
    assert!(!c.set_app(FullID::from_str("lux", "other").unwrap(), intro(1), 200));
    assert_eq!(c.status(), ConnectionStatus::Ready);
    assert!(!c.check_timeout(100 + 10_000));
    c.set_peer_intro(Addr(3), intro(22));
    assert_eq!(c.status(), ConnectionStatus::Launching);
    let s = c.finalize(vec![Some(5), Some(6)]);
    assert_eq!(s.shared_seed, 11 ^ 22);
    assert_eq!(s.device_seed, 11);
    assert_eq!(s.app.app(), "snek");
    assert_eq!(s.peers.len(), 2);
    assert_eq!(s.peers[0].friend_id, Some(5));
    assert_eq!(s.peers[1].friend_id, None);
    assert_eq!(s.peers[0].badges, vec![1, 2]);
    let back = s.into_connection();
    assert_eq!(back.peers.len(), 2);
    assert!(back.peers[1].addr.is_none());
    assert!(back.app.is_none());
}

#[test]
fn connection_timeout_and_disconnect() {
    let mut c = connection();
    c.set_app(FullID::from_str("lux", "snek").unwrap(), intro(1), 100);
    assert!(c.check_timeout(100 + 10_001));
    assert!(c.started_at.is_none());
    assert!(!c.check_timeout(100 + 20_000));
    let err = c.handle_disconnect(Addr(3), name("???"));
    assert_eq!(err, NetcodeError::Disconnected(name("bob")));
    assert_eq!(c.peers.len(), 1);
    let err = c.handle_disconnect(Addr(3), name("???"));
    assert_eq!(err, NetcodeError::Disconnected(name("???")));
    assert_eq!(err.message(), "??? disconnected");
    assert!(c.sync_due(0));
    assert!(!c.sync_due(50));
    assert!(c.ready_due(0));
    assert!(!c.ready_due(99));
    assert!(c.ready_due(100));
}

#[test]
fn friend_peers() {
    let mut friend = peer(Some(2), "amy");
    friend.friend_id = Some(4);
    let peers = vec![peer(None, "me"), friend, peer(Some(3), "bob")];
    assert_eq!(friend_peer(&peers, 1), Some(1));
    assert_eq!(friend_peer(&peers, 0), None); // this device
    assert_eq!(friend_peer(&peers, 2), None); // no friend ID
    assert_eq!(friend_peer(&peers, 3), None); // no such peer
    assert_eq!(friend_peer(&peers, 0xff), None); // this device by number
}
