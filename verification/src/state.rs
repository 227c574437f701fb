use vstd::prelude::*;
use crate::connector::ConnectStatus;
use crate::connection::ConnectionStatus;
use crate::input::{InputState, BTN_MENU};

verus! {

/// The input of this device in a multiplayer game, as the menu sees it: the menu
/// button is pressed for everyone if any player presses it, all other buttons and
/// the pad are this device's.
pub open spec fn spec_game_input(input: Option<InputState>, combined_menu: bool) -> Option<InputState> {
    match input {
        Some(i) => Some(InputState {
            pad: i.pad,
            buttons: if combined_menu { i.buttons | BTN_MENU } else { i.buttons & !BTN_MENU },
        }),
        None => if combined_menu {
            Some(InputState { pad: None, buttons: BTN_MENU })
        } else {
            None
        },
    }
}

/// The input of this device in a multiplayer game, see [`spec_game_input`].
pub fn game_input(input: &Option<InputState>, combined_menu: bool) -> (res: Option<InputState>)
    ensures
        res == spec_game_input(*input, combined_menu),
{
    match input {
        Some(i) => {
            let mut i = *i;
            if combined_menu {
                i.buttons = i.buttons | BTN_MENU;
            } else {
                i.buttons = i.buttons & !BTN_MENU;
            }
            Some(i)
        },
        None => {
            if combined_menu {
                Some(InputState { pad: None, buttons: BTN_MENU })
            } else {
                None
            }
        },
    }
}

/// Whether to mix a true random number into the shared seed on this frame: not if
/// the app locked the seed, not if the app never asked for a random number, and
/// only once a second (on the 21st frame of every 60).
pub fn sync_rand(lock_seed: bool, seed: u32, frame: u32) -> (res: bool)
    ensures
        res == (!lock_seed && seed != 0 && frame % 60 == 21),
{
    !lock_seed && seed != 0 && frame % 60 == 21
}

/// What to do with the connector after the connecting scene's status.
#[derive(Debug, Clone, Copy, PartialEq, Eq, Structural)]
pub enum ConnectorStep {
    /// Keep connecting.
    Keep,
    /// Stop accepting new devices and keep the connector.
    Pause,
    /// Cancel: go back to the launcher without multiplayer.
    Cancel,
    /// Validate the devices and turn the connector into a connection.
    Finish,
}

/// Decide what to do with the connector: a confirmation with no other device
/// counts as a cancellation, since multiplayer needs someone else.
pub fn connector_step(status: Option<ConnectStatus>, n_peers: usize) -> (res: ConnectorStep)
    ensures
        res == match status {
            None => ConnectorStep::Keep,
            Some(ConnectStatus::Stopped) => ConnectorStep::Pause,
            Some(ConnectStatus::Cancelled) => ConnectorStep::Cancel,
            Some(ConnectStatus::Finished) => if n_peers == 0 { ConnectorStep::Cancel } else { ConnectorStep::Finish },
        },
{
    let status = match status {
        None => return ConnectorStep::Keep,
        Some(s) => s,
    };
    let status = if status == ConnectStatus::Finished && n_peers == 0 { ConnectStatus::Cancelled } else { status };
    match status {
        ConnectStatus::Stopped => ConnectorStep::Pause,
        ConnectStatus::Cancelled => ConnectorStep::Cancel,
        ConnectStatus::Finished => ConnectorStep::Finish,
    }
}

/// What to do with the connection after its update.
#[derive(Debug, Clone, Copy, PartialEq, Eq, Structural)]
pub enum ConnectionStep {
    /// Keep the connection.
    Keep,
    /// Launch the app that every device agreed on.
    Launch,
    /// Give up: the devices took too long to agree.
    Drop,
}

/// Decide what to do with the connection: launch when everyone is ready and the app
/// is known, drop it on timeout, else keep it.
pub fn connection_step(status: ConnectionStatus, app_known: bool) -> (res: ConnectionStep)
    ensures
        res == match status {
            ConnectionStatus::Launching => if app_known { ConnectionStep::Launch } else { ConnectionStep::Keep },
            ConnectionStatus::Timeout => ConnectionStep::Drop,
            _ => ConnectionStep::Keep,
        },
{
    match status {
        ConnectionStatus::Launching => if app_known {
            ConnectionStep::Launch
        } else {
            ConnectionStep::Keep
        },
        ConnectionStatus::Timeout => ConnectionStep::Drop,
        _ => ConnectionStep::Keep,
    }
}

/// The decimal digits of the number, at least three (with leading zeros).
pub open spec fn digits3(n: nat) -> Seq<u8>
    decreases n,
{
    if n < 10 {
        seq![48u8, 48u8, (48 + n) as u8]
    } else if n < 100 {
        seq![48u8, (48 + n / 10) as u8, (48 + n % 10) as u8]
    } else if n < 1000 {
        seq![(48 + n / 100) as u8, (48 + (n / 10) % 10) as u8, (48 + n % 10) as u8]
    } else {
        digits3(n / 10).push((48 + n % 10) as u8)
    }
}

/// The name of the screenshot file with the given number: the number with at
/// least three digits and the extension `.ffs`.
pub open spec fn shot_name(n: nat) -> Seq<u8> {
    digits3(n) + seq![46u8, 102u8, 102u8, 115u8]
}

fn push_digits(out: &mut Vec<u8>, n: u32)
    ensures
        final(out)@ == old(out)@ + digits3(n as nat),
    decreases n,
{
    if n < 10 {
        out.push(48);
        out.push(48);
        out.push(48 + n as u8);
        assert(final(out)@ =~= old(out)@ + digits3(n as nat)) by {
            assert(digits3(n as nat) == seq![48u8, 48u8, (48 + n) as u8]);
        }
    } else if n < 100 {
        out.push(48);
        out.push(48 + (n / 10) as u8);
        out.push(48 + (n % 10) as u8);
        assert(out@ =~= old(out)@ + digits3(n as nat));
    } else if n < 1000 {
        out.push(48 + (n / 100) as u8);
        out.push(48 + ((n / 10) % 10) as u8);
        out.push(48 + (n % 10) as u8);
        assert(out@ =~= old(out)@ + digits3(n as nat));
    } else {
        push_digits(out, n / 10);
        out.push(48 + (n % 10) as u8);
        assert(out@ =~= old(out)@ + digits3(n as nat));
    }
}

/// The name of the screenshot file with the given number, see [`shot_name`].
pub fn screenshot_name(index: u32) -> (res: Vec<u8>)
    ensures
        res@ == shot_name(index as nat),
{
    let mut out: Vec<u8> = Vec::new();
    push_digits(&mut out, index);
    out.push(46);
    out.push(102);
    out.push(102);
    out.push(115);
    assert(out@ =~= shot_name(index as nat));
    out
}

} // verus!
