use firefly_runtime::config::FullID;
use firefly_runtime::error::HostError;
use firefly_runtime::files::NameError;
use firefly_runtime::sudo::{dir_listing_size, get_id, path_parts, run_app_id, write_dir_listing};

#[test]
fn sudo_paths_split() {
    let parts = path_parts("roms/lux/snek/_meta").unwrap();
    assert_eq!(&parts[..], &["roms", "lux", "snek", "_meta"]);
    let parts = path_parts("data").unwrap();
    assert_eq!(&parts[..], &["data"]);
    assert_eq!(path_parts(""), Err(NameError::Empty));
    assert_eq!(path_parts("data/"), Err(NameError::Empty));
    assert_eq!(path_parts("data//x"), Err(NameError::Empty));
    assert_eq!(path_parts("data/../x"), Err(NameError::TrailingDot));
    assert_eq!(path_parts("da ta/.x"), Err(NameError::InvalidChar(b' ')));
    assert_eq!(path_parts("data/é/x"), Err(NameError::InvalidChar(0xc3)));
}

#[test]
fn dir_listings() {
    let names = vec![b"lux".to_vec(), b"".to_vec(), b"demo-app".to_vec()];
    assert_eq!(dir_listing_size(&names), 14);
    let mut buf = [0xaau8; 16];
    assert_eq!(write_dir_listing(&names, &mut buf), 14);
    assert_eq!(&buf[..14], b"\x03lux\x00\x08demo-app");
    assert_eq!(&buf[14..], &[0xaa, 0xaa]);
    let mut empty: [u8; 0] = [];
    assert_eq!(write_dir_listing(&[], &mut empty), 0);
    assert_eq!(dir_listing_size(&[]), 0);
}

#[test]
fn long_names_in_listings() {
    let names = vec![vec![b'a'; 300]];
    assert_eq!(dir_listing_size(&names), 301);
    let mut buf = vec![0u8; 301];
    assert_eq!(write_dir_listing(&names, &mut buf), 301);
    assert_eq!(buf[0], 44);
    assert!(buf[1..].iter().all(|b| *b == b'a'));
}

#[test]
fn sudo_ids() {
    let mem = b"lux snek-2 Bad--x\xff";
    assert_eq!(get_id(mem, 0, 3), Ok("lux"));
    assert_eq!(get_id(mem, 4, 6), Ok("snek-2"));
    assert_eq!(get_id(mem, 11, 3), Err(HostError::Id(NameError::InvalidChar(b'B'))));
    assert_eq!(get_id(mem, 12, 5), Err(HostError::Id(NameError::DoubleMinus)));
    assert_eq!(get_id(mem, 8, 2), Err(HostError::Id(NameError::TrailingMinus)));
    assert_eq!(get_id(mem, 3, 0), Err(HostError::Id(NameError::Empty)));
    assert_eq!(get_id(mem, 17, 1), Err(HostError::IdUtf8));
    assert_eq!(get_id(mem, 17, 2), Err(HostError::OomPointer));
    let long = b"abcdefghijklmnopq";
    assert_eq!(get_id(long, 0, 17), Err(HostError::Id(NameError::TooLong)));
    assert_eq!(get_id(long, 0, 16), Ok("abcdefghijklmnop"));
}

#[test]
fn sudo_run_app() {
    let mem = b"lux snek-2 x.y";
    let id: FullID = run_app_id(mem, 0, 3, 4, 6).ok().unwrap();
    assert_eq!(id.author(), "lux");
    assert_eq!(id.app(), "snek-2");
    assert!(matches!(run_app_id(mem, 11, 3, 4, 6), Err(HostError::Id(NameError::InvalidChar(b'.')))));
    assert!(matches!(run_app_id(mem, 0, 3, 40, 6), Err(HostError::OomPointer)));
    assert_eq!(
        HostError::Id(NameError::DoubleMinus).message(),
        "bad ID: must not contain '--'"
    );
}
