use vstd::prelude::*;
use vstd::string::StringSliceAdditionalSpecFns;
use vstd::string::StringExecFns;
use firefly_types::ValidationError;
use crate::error::HostError;

verus! {

/// Why a file name, a directory name, or an ID is refused.
#[derive(Debug, Clone, Copy, PartialEq, Eq, Structural)]
pub enum NameError {
    TrailingMinus,
    DoubleMinus,
    Empty,
    InvalidChar(u8),
    InvalidFirstChar(u8),
    TooLong,
    TrailingSpace,
    TrailingDot,
}

/// The fixed text of an error that holds no byte.
pub open spec fn name_error_text(e: NameError) -> &'static str {
    match e {
        NameError::TrailingMinus => "must not start or end with minus",
        NameError::DoubleMinus => "must not contain '--'",
        NameError::Empty => "must not be empty",
        NameError::TooLong => "too long",
        NameError::TrailingSpace => "must not start or end with space",
        NameError::TrailingDot => "must not start or end with dot",
        _ => "",
    }
}

/// `m` is the message of the error: the fixed text, or for a refused byte the
/// text and the byte shown as a character.
pub open spec fn is_name_error_message(e: NameError, m: Seq<char>) -> bool {
    match e {
        NameError::InvalidChar(c) => exists|d: String|
            vstd::string::to_string_from_display_ensures::<char>(&(c as char), d) && m == "must not contain "@ + d@,
        NameError::InvalidFirstChar(c) => exists|d: String|
            vstd::string::to_string_from_display_ensures::<char>(&(c as char), d) && m == "must not start with "@
                + d@,
        _ => m == name_error_text(e)@,
    }
}

impl NameError {
    /// The message shown for the error, see [`is_name_error_message`].
    pub fn message(&self) -> (res: String)
        ensures
            is_name_error_message(*self, res@),
    {
        match self {
            NameError::InvalidChar(c) => {
                let mut msg = String::from_str("must not contain ");
                let d = (*c as char).to_string();
                msg.append(d.as_str());
                msg
            },
            NameError::InvalidFirstChar(c) => {
                let mut msg = String::from_str("must not start with ");
                let d = (*c as char).to_string();
                msg.append(d.as_str());
                msg
            },
            NameError::TrailingMinus => String::from_str("must not start or end with minus"),
            NameError::DoubleMinus => String::from_str("must not contain '--'"),
            NameError::Empty => String::from_str("must not be empty"),
            NameError::TooLong => String::from_str("too long"),
            NameError::TrailingSpace => String::from_str("must not start or end with space"),
            NameError::TrailingDot => String::from_str("must not start or end with dot"),
        }
    }
}

/// A byte that may appear in a file or directory name: an ASCII letter or digit,
/// a dot, an underscore, or a minus.
pub open spec fn is_path_char(c: u8) -> bool {
    (65 <= c <= 90) || (97 <= c <= 122) || (48 <= c <= 57) || c == 46 || c == 95 || c == 45
}

/// The first byte of the name that may not appear in a name, as the error.
pub open spec fn path_chars_check(b: Seq<u8>) -> Result<(), NameError>
    decreases b.len(),
{
    if b.len() == 0 {
        Ok(())
    } else if !is_path_char(b[0]) {
        Err(NameError::InvalidChar(b[0]))
    } else {
        path_chars_check(b.drop_first())
    }
}

/// The check of a file or directory name: it must not start with a dot (which
/// also rules out `.` and `..`), must not be empty, and may hold only the bytes
/// of [`is_path_char`].
pub open spec fn path_part_check(b: Seq<u8>) -> Result<(), NameError> {
    if b.len() > 0 && b[0] == 46 {
        Err(NameError::TrailingDot)
    } else if b.len() == 0 {
        Err(NameError::Empty)
    } else {
        path_chars_check(b)
    }
}

/// `firefly_types::validate_path_part`, with its error carried over variant by
/// variant: the checks of its source are those of [`path_part_check`], in that order.
#[verifier::external_body]
fn validate_path_part(s: &str) -> (res: Result<(), NameError>)
    ensures
        res == path_part_check(s.spec_bytes()),
{
    match firefly_types::validate_path_part(s) {
        Ok(()) => Ok(()),
        Err(ValidationError::TrailingMinus) => Err(NameError::TrailingMinus),
        Err(ValidationError::DoubleMinus) => Err(NameError::DoubleMinus),
        Err(ValidationError::Empty) => Err(NameError::Empty),
        Err(ValidationError::InvalidChar(c)) => Err(NameError::InvalidChar(c)),
        Err(ValidationError::InvalidFirstChar(c)) => Err(NameError::InvalidFirstChar(c)),
        Err(ValidationError::TooLong) => Err(NameError::TooLong),
        Err(ValidationError::TrailingSpace) => Err(NameError::TrailingSpace),
        Err(ValidationError::TrailingDot) => Err(NameError::TrailingDot),
    }
}

/// `core::str::from_utf8`: the string with the same bytes, if the bytes are UTF-8.
#[verifier::external_body]
pub(crate) fn str_from_utf8(bytes: &[u8]) -> (res: Option<&str>)
    ensures
        res is Some <==> vstd::utf8::valid_utf8(bytes@),
        res matches Some(s) ==> s.spec_bytes() == bytes@,
{
    core::str::from_utf8(bytes).ok()
}

/// The name of the file that an app gives by a pointer and a length into its
/// memory: the bytes must lie in the memory, be UTF-8, and make a valid name.
pub open spec fn spec_file_name(mem: Seq<u8>, ptr: int, len: int) -> Result<Seq<u8>, HostError> {
    if ptr + len > mem.len() {
        Err(HostError::OomPointer)
    } else {
        let b = mem.subrange(ptr, ptr + len);
        if !vstd::utf8::valid_utf8(b) {
            Err(HostError::FileNameUtf8)
        } else {
            match path_part_check(b) {
                Err(e) => Err(HostError::FileName(e)),
                Ok(_) => Ok(b),
            }
        }
    }
}

/// Load, parse, and validate the name of a file, see [`spec_file_name`].
pub fn file_name(data: &[u8], ptr: u32, len: u32) -> (res: Result<&str, HostError>)
    ensures
        match spec_file_name(data@, ptr as int, len as int) {
            Ok(b) => res matches Ok(s) && s.spec_bytes() == b,
            Err(e) => res matches Err(r) && r == e,
        },
{
    let p = ptr as usize;
    let n = len as usize;
    if p > data.len() || n > data.len() - p {
        return Err(HostError::OomPointer);
    }
    let bytes = vstd::slice::slice_subrange(data, p, p + n);
    let name = match str_from_utf8(bytes) {
        None => return Err(HostError::FileNameUtf8),
        Some(s) => s,
    };
    match validate_path_part(name) {
        Err(e) => Err(HostError::FileName(e)),
        Ok(()) => Ok(name),
    }
}

/// Where the copy of a file that an app reads lies.
#[derive(Debug, Clone, Copy, PartialEq, Eq, Structural)]
pub enum FileOrigin {
    /// The app's ROM directory, which comes with the app.
    Rom,
    /// The app's data directory, which the app writes.
    Data,
}

/// Which copy of a file an app reads: the one in its ROM if there is one, else the
/// one in its data directory, but that one not in a multiplayer game, where the data
/// of the devices may differ.
pub fn load_origin(in_rom: bool, in_data: bool, in_multiplayer: bool) -> (res: Result<FileOrigin, HostError>)
    ensures
        res == if in_rom {
            Ok::<FileOrigin, HostError>(FileOrigin::Rom)
        } else if !in_data {
            Err(HostError::FileNotFound)
        } else if in_multiplayer {
            Err(HostError::DataFileInNet)
        } else {
            Ok(FileOrigin::Data)
        },
{
    if in_rom {
        Ok(FileOrigin::Rom)
    } else if !in_data {
        Err(HostError::FileNotFound)
    } else if in_multiplayer {
        Err(HostError::DataFileInNet)
    } else {
        Ok(FileOrigin::Data)
    }
}

/// An app may write or remove a file of its data directory only where its ROM has
/// no file of the same name, which reads would find first.
pub fn check_writable(in_rom: bool) -> (res: Result<(), HostError>)
    ensures
        res == if in_rom {
            Err::<(), HostError>(HostError::FileReadOnly)
        } else {
            Ok(())
        },
{
    if in_rom {
        Err(HostError::FileReadOnly)
    } else {
        Ok(())
    }
}

/// What reading a file into the app's buffer, or writing the buffer into a file,
/// gives back to the app: the number of bytes moved, which must be the size of the
/// buffer.
pub fn transfer_result(done: usize, buf_len: u32) -> (res: Result<u32, HostError>)
    ensures
        res == if done == buf_len {
            Ok::<u32, HostError>(buf_len)
        } else {
            Err(HostError::BufferSize)
        },
{
    if done == buf_len as usize {
        Ok(buf_len)
    } else {
        Err(HostError::BufferSize)
    }
}

/// Read a file into the app's buffer: as much of the file as fits goes into the
/// start of the buffer, and the load succeeds only if the file has exactly the
/// size of the buffer, which the app learns beforehand from `get_file_size`.
pub fn load_into(content: &[u8], buf: &mut [u8]) -> (res: Result<u32, HostError>)
    requires
        old(buf)@.len() <= u32::MAX,
    ensures
        res == if content@.len() == old(buf)@.len() {
            Ok::<u32, HostError>(old(buf)@.len() as u32)
        } else {
            Err(HostError::BufferSize)
        },
        ({
            let n = if content@.len() < old(buf)@.len() { content@.len() } else { old(buf)@.len() };
            final(buf)@ == content@.subrange(0, n as int) + old(buf)@.subrange(n as int, old(buf)@.len() as int)
        }),
{
    let ghost orig = buf@;
    let len = buf.len();
    let n = if content.len() < len { content.len() } else { len };
    let mut i: usize = 0;
    while i < n
        invariant
            n <= content@.len(),
            n <= len,
            len == buf@.len(),
            len == orig.len(),
            0 <= i <= n,
            buf@ == content@.subrange(0, i as int) + orig.subrange(i as int, len as int),
        decreases n - i,
    {
        buf[i] = content[i];
        i = i + 1;
        assert(buf@ =~= content@.subrange(0, i as int) + orig.subrange(i as int, len as int));
    }
    if content.len() == len {
        Ok(len as u32)
    } else {
        Err(HostError::BufferSize)
    }
}

} // verus!
