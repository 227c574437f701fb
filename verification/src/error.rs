use vstd::prelude::*;
use vstd::string::StringExecFns;
use crate::files::NameError;

verus! {

/// Errors reported by host-defined functions.
///
/// The runtime logs them into the console and returns a neutral value
/// (usually zero) to the guest.
#[derive(Debug, Clone, Copy, PartialEq, Eq, Structural)]
pub enum HostError {
    MemoryNotFound,
    OomPointer,
    BufferSize,
    DataFileInNet,
    FileReadOnly,
    FileNotFound,
    FileWrite,
    FileFlush,
    FileNameUtf8,
    FileName(NameError),
    MenuItemUtf8,
    IdUtf8,
    Id(NameError),
    TextUtf8,
    InvalidWidth,
    NoneColor,
    UnknownPeer(u32),
    NoStats,
    NoBadges,
    NoBadge(u32),
    NoBoards,
    NoBoard(u32),
    ValueTooBig,
}

/// Runtime stats provided on guest failure that should help to debug the failure cause.
pub struct RuntimeStats {
    pub last_called: String,
}

impl HostError {
    /// The message logged for the error.
    pub fn message(&self) -> (res: String)
        ensures
            match *self {
                HostError::UnknownPeer(p) => exists|d: String|
                    vstd::string::to_string_from_display_ensures::<u32>(&p, d) && res@ == "peer "@ + d@
                        + " is not connected"@,
                HostError::NoBadge(id) => exists|d: String|
                    vstd::string::to_string_from_display_ensures::<u32>(&id, d) && res@
                        == "the app doesn't have a badge with ID "@ + d@,
                HostError::NoBoard(id) => exists|d: String|
                    vstd::string::to_string_from_display_ensures::<u32>(&id, d) && res@
                        == "the app doesn't have a board with ID "@ + d@,
                HostError::FileName(e) => exists|m: Seq<char>|
                    crate::files::is_name_error_message(e, m) && res@ == "bad file name: "@ + m,
                HostError::Id(e) => exists|m: Seq<char>|
                    crate::files::is_name_error_message(e, m) && res@ == "bad ID: "@ + m,
                _ => res@ == host_error_text(*self)@,
            },
    {
        match self {
            HostError::UnknownPeer(p) => {
                let mut msg = String::from_str("peer ");
                let d = p.to_string();
                msg.append(d.as_str());
                msg.append(" is not connected");
                msg
            },
            HostError::NoBadge(id) => {
                let mut msg = String::from_str("the app doesn't have a badge with ID ");
                let d = id.to_string();
                msg.append(d.as_str());
                msg
            },
            HostError::NoBoard(id) => {
                let mut msg = String::from_str("the app doesn't have a board with ID ");
                let d = id.to_string();
                msg.append(d.as_str());
                msg
            },
            HostError::FileName(e) => {
                let mut msg = String::from_str("bad file name: ");
                let m = e.message();
                msg.append(m.as_str());
                msg
            },
            HostError::Id(e) => {
                let mut msg = String::from_str("bad ID: ");
                let m = e.message();
                msg.append(m.as_str());
                msg
            },
            _ => String::from_str(host_error_str(self)),
        }
    }
}

/// The fixed message of an error that holds no number.
pub open spec fn host_error_text(e: HostError) -> &'static str {
    match e {
        HostError::MemoryNotFound => "memory not found",
        HostError::OomPointer => "buffer points out of memory",
        HostError::BufferSize => "buffer size for file does not match file size",
        HostError::DataFileInNet => "cannot read data files in multiplayer",
        HostError::FileReadOnly => "files in the app ROM cannot be modified",
        HostError::FileNotFound => "file not found",
        HostError::FileWrite => "cannot write file",
        HostError::FileFlush => "cannot flush file",
        HostError::FileNameUtf8 => "file name is not valid UTF-8",
        HostError::MenuItemUtf8 => "menu item name is not valid UTF-8",
        HostError::IdUtf8 => "ID is not valid UTF-8",
        HostError::TextUtf8 => "text is not valid UTF-8",
        HostError::InvalidWidth => "the image has invalid width",
        HostError::NoneColor => "color is None (0)",
        HostError::NoStats => "the app doesn't have stats file",
        HostError::NoBadges => "the app doesn't have any badges",
        HostError::NoBoards => "the app doesn't have any boards",
        HostError::ValueTooBig => "the value is too big",
        _ => "",
    }
}

fn host_error_str(e: &HostError) -> (res: &'static str)
    ensures
        res == host_error_text(*e),
{
    match e {
        HostError::MemoryNotFound => "memory not found",
        HostError::OomPointer => "buffer points out of memory",
        HostError::BufferSize => "buffer size for file does not match file size",
        HostError::DataFileInNet => "cannot read data files in multiplayer",
        HostError::FileReadOnly => "files in the app ROM cannot be modified",
        HostError::FileNotFound => "file not found",
        HostError::FileWrite => "cannot write file",
        HostError::FileFlush => "cannot flush file",
        HostError::FileNameUtf8 => "file name is not valid UTF-8",
        HostError::MenuItemUtf8 => "menu item name is not valid UTF-8",
        HostError::IdUtf8 => "ID is not valid UTF-8",
        HostError::TextUtf8 => "text is not valid UTF-8",
        HostError::InvalidWidth => "the image has invalid width",
        HostError::NoneColor => "color is None (0)",
        HostError::NoStats => "the app doesn't have stats file",
        HostError::NoBadges => "the app doesn't have any badges",
        HostError::NoBoards => "the app doesn't have any boards",
        HostError::ValueTooBig => "the value is too big",
        _ => "",
    }
}

impl RuntimeStats {
    /// The stats as shown after a failure of the app.
    pub fn message(&self) -> (res: String)
        ensures
            self.last_called@.len() == 0 ==> res@ == "No host functions were called.\n"@,
            self.last_called@.len() != 0 ==> res@ == "The last called host function is "@ + self.last_called@
                + ".\n"@,
    {
        if self.last_called.as_str().is_empty() {
            return String::from_str("No host functions were called.\n");
        }
        let mut msg = String::from_str("The last called host function is ");
        msg.append(self.last_called.as_str());
        msg.append(".\n");
        msg
    }
}

/// Why a wasm module cannot be linked with the runtime.
#[derive(Debug, PartialEq, Eq)]
pub enum LinkingError {
    /// The module imports sudo functions, but sudo is disabled.
    SudoDisabled,
    /// The module imports a function (module name, function name) the runtime doesn't have.
    UnknownHostFunction(String, String),
}

impl LinkingError {
    /// The message shown for the error.
    pub fn message(&self) -> (res: String)
        ensures
            match self {
                LinkingError::SudoDisabled => res@ == "sudo is disabled"@,
                LinkingError::UnknownHostFunction(m, n) => res@ == "unknown host function: "@ + m@ + "."@ + n@,
            },
    {
        match self {
            LinkingError::SudoDisabled => String::from_str("sudo is disabled"),
            LinkingError::UnknownHostFunction(module, name) => {
                let mut msg = String::from_str("unknown host function: ");
                msg.append(module.as_str());
                msg.append(".");
                msg.append(name.as_str());
                msg
            },
        }
    }
}

} // verus!
