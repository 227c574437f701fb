use firefly_runtime::config::device_name;
use firefly_runtime::error::HostError;
use firefly_runtime::files::{check_writable, file_name, load_into, load_origin, transfer_result, FileOrigin, NameError};
use firefly_runtime::wasi::environ_sizes_get;

#[test]
fn file_names_in_memory() {
    let mem = b"..hello.txt..";
    assert_eq!(file_name(mem, 2, 9), Ok("hello.txt"));
    assert_eq!(file_name(mem, 2, 0), Err(HostError::FileName(NameError::Empty)));
    assert_eq!(file_name(mem, 0, 4), Err(HostError::FileName(NameError::TrailingDot)));
    assert_eq!(file_name(mem, 4, 10), Err(HostError::OomPointer));
    assert_eq!(file_name(mem, 14, 0), Err(HostError::OomPointer));
    assert_eq!(file_name(mem, 13, 0), Err(HostError::FileName(NameError::Empty)));
}

#[test]
fn file_names_refused() {
    let mem = b"a/b\xff\xfeSAVE_1-x.bin";
    assert_eq!(file_name(mem, 0, 3), Err(HostError::FileName(NameError::InvalidChar(b'/'))));
    assert_eq!(file_name(mem, 3, 2), Err(HostError::FileNameUtf8));
    assert_eq!(file_name(mem, 5, 12), Ok("SAVE_1-x.bin"));
    let utf8 = "é".as_bytes();
    assert_eq!(file_name(utf8, 0, 2), Err(HostError::FileName(NameError::InvalidChar(0xc3))));
}

#[test]
fn file_name_messages() {
    assert_eq!(
        HostError::FileName(NameError::InvalidChar(b'/')).message(),
        "bad file name: must not contain /"
    );
    assert_eq!(HostError::FileName(NameError::Empty).message(), "bad file name: must not be empty");
    assert_eq!(
        HostError::FileName(NameError::TrailingDot).message(),
        "bad file name: must not start or end with dot"
    );
    assert_eq!(NameError::InvalidFirstChar(b'1').message(), "must not start with 1");
    assert_eq!(NameError::DoubleMinus.message(), "must not contain '--'");
}

#[test]
fn file_origins() {
    assert_eq!(load_origin(true, true, true), Ok(FileOrigin::Rom));
    assert_eq!(load_origin(true, false, false), Ok(FileOrigin::Rom));
    assert_eq!(load_origin(false, true, false), Ok(FileOrigin::Data));
    assert_eq!(load_origin(false, true, true), Err(HostError::DataFileInNet));
    assert_eq!(load_origin(false, false, false), Err(HostError::FileNotFound));
}

#[test]
fn file_writes_and_sizes() {
    assert_eq!(check_writable(true), Err(HostError::FileReadOnly));
    assert_eq!(check_writable(false), Ok(()));
    assert_eq!(transfer_result(12, 12), Ok(12));
    assert_eq!(transfer_result(7, 12), Err(HostError::BufferSize));
    assert_eq!(transfer_result(0, 0), Ok(0));
}

#[test]
fn environ_sizes_are_zero() {
    let mut mem = [7u8; 14];
    assert_eq!(environ_sizes_get(&mut mem, 1, 9), 0);
    assert_eq!(mem, [7, 0, 0, 0, 0, 7, 7, 7, 7, 0, 0, 0, 0, 7]);
    let mut mem = [5u8; 6];
    assert_eq!(environ_sizes_get(&mut mem, 2, 1), 0);
    assert_eq!(mem, [5, 0, 0, 0, 0, 0]);
}

#[test]
fn device_names() {
    assert_eq!(device_name("anonymous").as_str(), "anonymous");
    assert_eq!(device_name("sixteen-bytes-ok").as_str(), "sixteen-bytes-ok");
    assert_eq!(device_name("seventeen-bytes-x").as_str(), "");
    assert_eq!(device_name("").as_str(), "");
}

#[test]
fn loads_need_the_buffer_size() {
    let mut buf = [9u8; 4];
    assert_eq!(load_into(b"abcd", &mut buf), Ok(4));
    assert_eq!(&buf, b"abcd");
    let mut buf = [9u8; 4];
    assert_eq!(load_into(b"abcdef", &mut buf), Err(HostError::BufferSize));
    assert_eq!(&buf, b"abcd");
    let mut buf = [9u8; 4];
    assert_eq!(load_into(b"ab", &mut buf), Err(HostError::BufferSize));
    assert_eq!(buf, [b'a', b'b', 9, 9]);
}
