use firefly_runtime::connector::{Connector, Intro};
use firefly_runtime::error::LinkingError;
use firefly_runtime::frame_buffer::Rect;
use firefly_runtime::graphics::draw_image_allowed;
use firefly_runtime::image::ParsedImage;
use firefly_runtime::linking::{host_module, HostModule};
use firefly_runtime::net::{check_outgoing, classify_incoming, Addr, Incoming, NetcodeError};
use firefly_runtime::scene::{shown_name, ConnectScene};
use firefly_runtime::scene::Buttons;

#[test]
fn host_modules() {
    assert!(matches!(host_module("graphics", "draw_line", false), Ok(HostModule::Graphics)));
    assert!(matches!(host_module("g", "draw_line", false), Ok(HostModule::Graphics)));
    assert!(matches!(host_module("audio", "add_sine", false), Ok(HostModule::Audio)));
    assert!(matches!(host_module("i", "read_pad", false), Ok(HostModule::Input)));
    assert!(matches!(host_module("menu", "open_menu", false), Ok(HostModule::Menu)));
    assert!(matches!(host_module("fs", "load_file", false), Ok(HostModule::Fs)));
    assert!(matches!(host_module("n", "get_me", false), Ok(HostModule::Net)));
    assert!(matches!(host_module("s", "add_score", false), Ok(HostModule::Stats)));
    assert!(matches!(host_module("m", "get_random", false), Ok(HostModule::Misc)));
    assert!(matches!(
        host_module("wasi_snapshot_preview1", "fd_write", false),
        Ok(HostModule::Wasip1)
    ));
    assert!(matches!(host_module("sudo", "list_dirs", true), Ok(HostModule::Sudo)));
    assert_eq!(host_module("sudo", "list_dirs", false), Err(LinkingError::SudoDisabled));
    match host_module("dragons", "fly", true) {
        Err(err) => assert_eq!(err.message(), "unknown host function: dragons.fly"),
        Ok(_) => panic!("an unknown module must be refused"),
    }
    assert!(host_module("Graphics", "draw_line", false).is_err());
}

#[test]
fn incoming_datagrams() {
    assert_eq!(classify_incoming(b""), Err(NetcodeError::EmptyBufferIn));
    assert_eq!(classify_incoming(b"HELLO"), Ok(Incoming::Hello));
    assert_eq!(classify_incoming(b"HELLO!"), Ok(Incoming::Encoded));
    assert_eq!(classify_incoming(&[1, 2, 3]), Ok(Incoming::Encoded));
    assert_eq!(check_outgoing(0), Err(NetcodeError::EmptyBufferOut));
    assert_eq!(check_outgoing(3), Ok(()));
}

#[test]
fn image_draw_checks() {
    let image = ParsedImage { bytes: &[0x12, 0x34, 0x56], width: 3, transp: 5, sub: None };
    assert!(image.render_allowed(10, 20));
    assert!(image.render_allowed(-100, -100));
    assert!(!image.render_allowed(i32::MIN, 0));
    assert!(!image.render_allowed(i32::MAX - 1, 0));
    // A copy of whole lines needs whole lines in the image.
    let partial = ParsedImage { bytes: &[0x11, 0x11, 0x22], width: 4, transp: 255, sub: None };
    assert!(!partial.render_allowed(0, 0));
    assert!(partial.render_allowed(1, 0));
    let sub = Rect { x: 0, y: 0, width: 2, height: 1 };
    let part = ParsedImage { bytes: &[0x12, 0x34, 0x56], width: 3, transp: 5, sub: Some(sub) };
    assert!(part.render_allowed(0, 0));
    // A zero width is refused by the header check before anything is drawn.
    let file = [0x21, 0x04, 0x00, 0x00, 0xff, 0, 0, 0, 0, 0, 0, 0, 0, 0x12];
    assert!(draw_image_allowed(false, &file, 0, 0, None, false));
    let file = [0x21, 0x04, 0x02, 0x00, 0xff, 0, 0, 0, 0, 0, 0, 0, 0, 0x12, 0x34];
    assert!(draw_image_allowed(false, &file, 0, 0, None, false));
    assert!(!draw_image_allowed(false, &file, i32::MIN, 0, None, false));
}

fn intro(n: &str) -> Intro {
    Intro { name: heapless::String::try_from(n).unwrap(), version: 1 }
}

#[test]
fn connect_scene_texts() {
    assert_eq!(shown_name(""), "<empty>");
    assert_eq!(shown_name("bob"), "bob");
    let mut scene = ConnectScene::new();
    assert_eq!(scene.hint(false), "(press any button to stop)");
    let mut c = Connector::new(intro("me"));
    c.handle_hello(Addr(1)).unwrap();
    c.handle_hello(Addr(2)).unwrap();
    c.handle_hello(Addr(3)).unwrap();
    c.handle_intro(Addr(2), intro("bob")).unwrap();
    assert_eq!(scene.unnamed_peers(&c), vec![Addr(1), Addr(3)]);
    scene.buttons = Buttons { a: false, b: false, any: true };
    scene.update(&None);
    assert!(scene.stopped);
    assert_eq!(scene.unnamed_peers(&c), vec![]);
    assert_eq!(scene.hint(true), "press S to continue / E to cancel");
    assert_eq!(scene.hint(false), "press E to cancel");
}
