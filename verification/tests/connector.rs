use firefly_runtime::connector::{
    get_ready_map, peers_to_remove, ConnectStatus, Connector, Intro,
};
use firefly_runtime::input::InputState;
use firefly_runtime::net::{Addr, NetcodeError};
use firefly_runtime::scene::{wrap_text, ConnectScene, ErrorScene};
use firefly_runtime::state::{
    connection_step, connector_step, game_input, screenshot_name, sync_rand, ConnectionStep,
    ConnectorStep,
};
use firefly_runtime::connection::ConnectionStatus;

fn name(s: &str) -> heapless::String<16> {
    heapless::String::try_from(s).unwrap()
}

fn intro(n: &str, version: u16) -> Intro {
    Intro { name: name(n), version }
}

#[test]
fn connector_collects_peers() {
    let mut c = Connector::new(intro("me", 1));
    assert!(c.take_start());
    assert!(!c.take_start());
    assert_eq!(c.handle_hello(Addr(5)), Ok(()));
    assert_eq!(c.handle_hello(Addr(5)), Ok(()));
    assert_eq!(c.peer_addrs, vec![Addr(5)]);
    assert_eq!(c.handle_intro(Addr(5), intro("Bad Name", 1)), Ok(()));
    assert_eq!(c.peer_infos.len(), 1);
    assert_eq!(c.peer_infos[0].intro.name.as_str(), "anonymous");
    assert_eq!(c.handle_intro(Addr(5), intro("other", 1)), Ok(()));
    assert_eq!(c.peer_infos.len(), 1);
    assert_eq!(c.handle_intro(Addr(2), intro("bob", 2)), Ok(()));
    assert_eq!(c.peer_infos[1].intro.name.as_str(), "bob");
    assert_eq!(
        c.validate(),
        Err("devices have incompatible OS versions; please, update.")
    );
    assert!(c.advertise_due(0));
    assert!(!c.advertise_due(50));
    assert!(c.advertise_due(100));

    let conn = c.finalize(Addr(3));
    let keys: Vec<Option<Addr>> = conn.peers.iter().map(|p| p.addr).collect();
    assert_eq!(keys, vec![Some(Addr(2)), None, Some(Addr(5))]);
    assert_eq!(conn.peers[1].name.as_str(), "me");
}

#[test]
fn connector_limits_and_disconnects() {
    let mut c = Connector::new(intro("me", 1));
    for i in 0..7 {
        assert_eq!(c.handle_hello(Addr(i)), Ok(()));
    }
    assert_eq!(c.handle_hello(Addr(100)), Err(NetcodeError::PeerListFull));
    assert_eq!(c.handle_intro(Addr(1), intro("ann", 1)), Ok(()));
    assert_eq!(c.handle_disconnect(Addr(1)), Ok(()));
    assert_eq!(c.peer_addrs.len(), 6);
    assert!(c.peer_infos.is_empty());
    c.pause().unwrap();
    assert!(!c.advertise_due(1000));
    assert_eq!(c.handle_hello(Addr(100)), Ok(()));
    assert_eq!(c.peer_addrs.len(), 6);
    assert_eq!(c.handle_disconnect(Addr(2)), Err(NetcodeError::Disconnected(name("???"))));
    assert_eq!(c.handle_intro(Addr(3), intro("late", 1)), Ok(()));
    assert!(c.peer_infos.is_empty());
}

#[test]
fn ready_maps() {
    assert_eq!(get_ready_map(0b11, 7, &[7, 7]), 1);
    assert_eq!(get_ready_map(0b11, 7, &[7, 0]), 0);
    assert_eq!(get_ready_map(0b01, 7, &[0, 7]), 0);
    assert_eq!(get_ready_map(0b11, 7, &[8, 7]), u32::MAX);
    assert_eq!(peers_to_remove(0b101, 4), vec![3, 1]);
    assert_eq!(peers_to_remove(0b1111, 4), Vec::<usize>::new());
}

fn buttons(b: u8) -> Option<InputState> {
    Some(InputState { pad: None, buttons: b })
}

#[test]
fn connect_scene_flow() {
    let mut scene = ConnectScene::new();
    assert_eq!(scene.update(&buttons(1)), None);
    assert_eq!(scene.update(&None), Some(ConnectStatus::Stopped));
    assert!(scene.stopped);
    assert!(!scene.rendered);
    // press and release A to finish
    assert_eq!(scene.update(&buttons(1)), None);
    assert_eq!(scene.update(&None), Some(ConnectStatus::Finished));
    // press and release B to cancel
    assert_eq!(scene.update(&buttons(2)), None);
    assert_eq!(scene.update(&None), Some(ConnectStatus::Cancelled));
    assert_eq!(scene.frame, 6);
    scene.frame = 15 * 16;
    assert_eq!(scene.connecting_slice(), (2, 2, 13));
    scene.frame = 15 * 3;
    assert_eq!(scene.connecting_slice(), (0, 0, 3));
    let c = Connector::new(intro("me", 1));
    assert_eq!(scene.calculate_hash(&c), 3);
}

#[test]
fn error_scene_button() {
    let mut scene = ErrorScene::new(b"oops".to_vec());
    assert!(!scene.update(0, 1));
    assert!(!scene.enabled_btn);
    assert!(!scene.update(501, 1));
    assert!(scene.enabled_btn);
    assert!(scene.update(502, 0));
}

#[test]
fn wrap_long_text() {
    let mut text = b"the quick brown fox jumps over the lazy dog".to_vec();
    wrap_text(&mut text);
    assert_eq!(&text, b"the quick brown fox jumps\nover the lazy dog");
    let mut short = b"short text".to_vec();
    wrap_text(&mut short);
    assert_eq!(&short, b"short text");
}

#[test]
fn state_decisions() {
    let input = Some(InputState { pad: None, buttons: 0b10001 });
    assert_eq!(game_input(&input, false).unwrap().buttons, 1);
    assert_eq!(game_input(&None, true).unwrap().buttons, 0b10000);
    assert!(game_input(&None, false).is_none());
    assert!(sync_rand(false, 1, 81));
    assert!(!sync_rand(true, 1, 81));
    assert!(!sync_rand(false, 0, 81));
    assert!(!sync_rand(false, 1, 80));
    assert_eq!(connector_step(Some(ConnectStatus::Finished), 0), ConnectorStep::Cancel);
    assert_eq!(connector_step(Some(ConnectStatus::Finished), 1), ConnectorStep::Finish);
    assert_eq!(connector_step(None, 1), ConnectorStep::Keep);
    assert_eq!(connection_step(ConnectionStatus::Launching, true), ConnectionStep::Launch);
    assert_eq!(connection_step(ConnectionStatus::Timeout, true), ConnectionStep::Drop);
    assert_eq!(connection_step(ConnectionStatus::Ready, true), ConnectionStep::Keep);
    assert_eq!(screenshot_name(1), b"001.ffs".to_vec());
    assert_eq!(screenshot_name(42), b"042.ffs".to_vec());
    assert_eq!(screenshot_name(1234), b"1234.ffs".to_vec());
}
