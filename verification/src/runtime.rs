use vstd::prelude::*;
use vstd::string::StringSliceAdditionalSpecFns;
use crate::config::{FullID, id_bytes};

verus! {

/// The fuel an app callback gets for one call.
pub const FUEL_PER_CALL: u64 = 10_000_000;

/// The wasm binaries larger than this (in bytes) are compiled lazily.
pub const LAZY_BIN_SIZE: u32 = 40 * 1024;

/// Why an app cannot be started.
#[derive(Debug, Clone, Copy, PartialEq, Eq, Structural)]
pub enum StartError {
    /// The app's binary file is empty.
    EmptyBinary,
    /// The author ID in the app's meta doesn't match the one in its path.
    AuthorIDMismatch,
    /// The app ID in the app's meta doesn't match the one in its path.
    AppIDMismatch,
    /// No app was asked for, and neither a launcher nor the app that creates
    /// new apps is installed.
    NoLauncher,
}

impl StartError {
    /// The message shown for the error.
    pub fn message(&self) -> (res: &'static str)
        ensures
            res == match *self {
                StartError::EmptyBinary => "file is empty: _bin",
                StartError::AuthorIDMismatch => "author ID in meta and in path don't match",
                StartError::AppIDMismatch => "app ID in meta and in path don't match",
                StartError::NoLauncher => "no launcher installed",
            },
    {
        match self {
            StartError::EmptyBinary => "file is empty: _bin",
            StartError::AuthorIDMismatch => "author ID in meta and in path don't match",
            StartError::AppIDMismatch => "app ID in meta and in path don't match",
            StartError::NoLauncher => "no launcher installed",
        }
    }
}

/// The app to run: the one asked for; without one, the launcher; without a
/// launcher, the app that creates new apps (each as its short meta in the system
/// directory names it).
pub fn app_to_run(asked: Option<FullID>, launcher: Option<FullID>, new_app: Option<FullID>) -> (res: Result<
    FullID,
    StartError,
>)
    ensures
        res == match asked {
            Some(id) => Ok(id),
            None => match launcher {
                Some(id) => Ok(id),
                None => match new_app {
                    Some(id) => Ok(id),
                    None => Err(StartError::NoLauncher),
                },
            },
        },
{
    match asked {
        Some(id) => Ok(id),
        None => match launcher {
            Some(id) => Ok(id),
            None => match new_app {
                Some(id) => Ok(id),
                None => Err(StartError::NoLauncher),
            },
        },
    }
}

/// True if the two byte strings are equal.
pub fn bytes_eq(a: &[u8], b: &[u8]) -> (res: bool)
    ensures
        res == (a@ == b@),
{
    if a.len() != b.len() {
        return false;
    }
    let n = a.len();
    let mut i: usize = 0;
    while i < n
        invariant
            n == a@.len(),
            n == b@.len(),
            0 <= i <= n,
            forall|k: int| 0 <= k < i ==> a@[k] == b@[k],
        decreases n - i,
    {
        if a[i] != b[i] {
            return false;
        }
        i = i + 1;
    }
    assert(a@ =~= b@);
    true
}

/// Check that the IDs in the app's meta match the IDs in the app's path.
pub fn check_meta(id: &FullID, meta_author: &str, meta_app: &str) -> (res: Result<(), StartError>)
    ensures
        res == (if meta_author.spec_bytes() != id_bytes(id.author) {
            Err::<(), StartError>(StartError::AuthorIDMismatch)
        } else if meta_app.spec_bytes() != id_bytes(id.app) {
            Err::<(), StartError>(StartError::AppIDMismatch)
        } else {
            Ok::<(), StartError>(())
        }),
{
    if !bytes_eq(meta_author.as_bytes(), id.author().as_bytes()) {
        return Err(StartError::AuthorIDMismatch);
    }
    if !bytes_eq(meta_app.as_bytes(), id.app().as_bytes()) {
        return Err(StartError::AppIDMismatch);
    }
    Ok(())
}

/// Check the size of the app's binary: it must not be empty.
/// Returns true if the binary is large enough to be compiled lazily.
pub fn check_bin_size(size: u32) -> (res: Result<bool, StartError>)
    ensures
        res == (if size == 0 {
            Err::<bool, StartError>(StartError::EmptyBinary)
        } else {
            Ok::<bool, StartError>(size > LAZY_BIN_SIZE)
        }),
{
    if size == 0 {
        return Err(StartError::EmptyBinary);
    }
    Ok(size > LAZY_BIN_SIZE)
}

/// The fuel a callback consumed, given the fuel left after it;
/// zero if it doesn't fit into 32 bits.
pub fn fuel_consumed(left: u64) -> (res: u32)
    requires
        left <= FUEL_PER_CALL,
    ensures
        res == (if FUEL_PER_CALL - left <= u32::MAX { (FUEL_PER_CALL - left) as u32 } else { 0u32 }),
{
    let consumed = FUEL_PER_CALL - left;
    if consumed <= u32::MAX as u64 {
        consumed as u32
    } else {
        0
    }
}

/// A request that the developer tools send over the serial port.
pub enum SerialRequest {
    /// Call the app's cheat callback with the two values.
    Cheat(i32, i32),
    /// Turn the stats on or off.
    Stats(bool),
    AppId,
    Screenshot,
    /// Launch the app with the given author ID and app ID.
    Launch(String, String),
    Exit,
    Buttons,
    Data,
}

/// What the runtime does for a serial request.
pub enum SerialAction {
    /// Call the cheat callback with the two values and send back its result.
    CallCheat(i32, i32),
    /// Start collecting stats from now on.
    StartStats,
    /// Stop collecting stats.
    StopStats,
    /// Nothing to do.
    Nothing,
    /// Send back the IDs of the running app.
    SendAppId,
    /// Take a screenshot and reply "ok".
    Screenshot,
    /// Exit, then launch this app; reply "ok".
    Launch(FullID),
    /// Reply with this error message.
    Log(&'static str),
    /// Exit; reply "ok".
    Exit,
}

/// Why a serial request fails.
#[derive(Debug, Clone, Copy, PartialEq, Eq, Structural)]
pub enum SerialError {
    /// The app doesn't have the cheat callback.
    CheatUndefined,
    /// Cheats are disabled in multiplayer.
    CheatInNet,
}

impl SerialError {
    /// The message shown for the error.
    pub fn message(&self) -> (res: &'static str)
        ensures
            res == match *self {
                SerialError::CheatUndefined => "the app doesn't have cheat callback",
                SerialError::CheatInNet => "cheats are disabled in multiplayer",
            },
    {
        match self {
            SerialError::CheatUndefined => "the app doesn't have cheat callback",
            SerialError::CheatInNet => "cheats are disabled in multiplayer",
        }
    }
}

/// Decide what to do for a serial request.
///
/// `has_cheat` tells if the app has the cheat callback, `in_net` if a multiplayer
/// connection is active, `stats_on` if the stats are collected now.
pub fn handle_serial_request(req: SerialRequest, has_cheat: bool, in_net: bool, stats_on: bool) -> (res: Result<
    SerialAction,
    SerialError,
>)
    requires
        !(req is Buttons),
        !(req is Data),
    ensures
        match req {
            SerialRequest::Cheat(a, b) => if !has_cheat {
                res == Err::<SerialAction, SerialError>(SerialError::CheatUndefined)
            } else if in_net {
                res == Err::<SerialAction, SerialError>(SerialError::CheatInNet)
            } else {
                res matches Ok(SerialAction::CallCheat(x, y)) && x == a && y == b
            },
            SerialRequest::Stats(on) => if on && !stats_on {
                res matches Ok(SerialAction::StartStats)
            } else if !on && stats_on {
                res matches Ok(SerialAction::StopStats)
            } else {
                res matches Ok(SerialAction::Nothing)
            },
            SerialRequest::AppId => res matches Ok(SerialAction::SendAppId),
            SerialRequest::Screenshot => res matches Ok(SerialAction::Screenshot),
            SerialRequest::Launch(author, app) => if vstd::utf8::encode_utf8(author@).len() <= 16
                && vstd::utf8::encode_utf8(app@).len() <= 16 {
                res matches Ok(SerialAction::Launch(id)) && id_bytes(id.author) == vstd::utf8::encode_utf8(author@)
                    && id_bytes(id.app) == vstd::utf8::encode_utf8(app@)
            } else {
                res matches Ok(SerialAction::Log(msg)) && msg@ == "ERROR(runtime): app ID is too long"@
            },
            SerialRequest::Exit => res matches Ok(SerialAction::Exit),
            _ => true,
        },
{
    match req {
        SerialRequest::Cheat(a, b) => {
            if !has_cheat {
                return Err(SerialError::CheatUndefined);
            }
            if in_net {
                return Err(SerialError::CheatInNet);
            }
            Ok(SerialAction::CallCheat(a, b))
        },
        SerialRequest::Stats(on) => {
            if on && !stats_on {
                Ok(SerialAction::StartStats)
            } else if !on && stats_on {
                Ok(SerialAction::StopStats)
            } else {
                Ok(SerialAction::Nothing)
            }
        },
        SerialRequest::AppId => Ok(SerialAction::SendAppId),
        SerialRequest::Screenshot => Ok(SerialAction::Screenshot),
        SerialRequest::Launch(author, app) => {
            match FullID::from_str(author.as_str(), app.as_str()) {
                Some(id) => Ok(SerialAction::Launch(id)),
                None => Ok(SerialAction::Log("ERROR(runtime): app ID is too long")),
            }
        },
        SerialRequest::Exit => Ok(SerialAction::Exit),
        SerialRequest::Buttons => Ok(SerialAction::Nothing),
        SerialRequest::Data => Ok(SerialAction::Nothing),
    }
}

/// What one runtime update does after the state update, see [`update_plan`].
#[derive(Debug, Clone, Copy, PartialEq, Eq, Structural)]
pub enum UpdatePlan {
    /// Show the error popup, nothing else.
    ShowError,
    /// Show the menu over the app (the app is paused), then keep the frame rate.
    ShowMenu,
    /// Run the app's update (and maybe render).
    RunApp {
        /// The menu was just closed: the whole frame must be drawn again.
        redraw: bool,
        /// The screen must be cleared, since the app won't draw it.
        clear_screen: bool,
        /// The app's menu item chosen in this update, for the `handle_menu` callback.
        handle_menu: Option<u8>,
    },
}

/// Decide what the runtime does in an update: an error popup takes the screen;
/// an open menu pauses the app; a menu that was just closed makes the frame dirty
/// and, if the app has no `render` callback, the screen is cleared. The app hears
/// of its chosen menu item (`custom`) only when it runs.
pub fn update_plan(has_error: bool, menu_was_active: bool, menu_is_active: bool, has_render: bool, custom: Option<
    u8,
>) -> (res: UpdatePlan)
    ensures
        res == (if has_error {
            UpdatePlan::ShowError
        } else if menu_is_active {
            UpdatePlan::ShowMenu
        } else {
            UpdatePlan::RunApp {
                redraw: menu_was_active,
                clear_screen: menu_was_active && !has_render,
                handle_menu: custom,
            }
        }),
{
    if has_error {
        return UpdatePlan::ShowError;
    }
    if menu_is_active {
        return UpdatePlan::ShowMenu;
    }
    UpdatePlan::RunApp { redraw: menu_was_active, clear_screen: menu_was_active && !has_render, handle_menu: custom }
}

} // verus!
