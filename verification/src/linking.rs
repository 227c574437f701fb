use vstd::prelude::*;
use vstd::string::StringSliceAdditionalSpecFns;
use vstd::string::StringExecFns;
use crate::error::LinkingError;
use crate::runtime::bytes_eq;

verus! {

/// A group of host functions that an app may import.
#[derive(Debug, Clone, Copy, PartialEq, Eq, Structural)]
pub enum HostModule {
    Graphics,
    Audio,
    Input,
    Menu,
    Fs,
    Net,
    Stats,
    Misc,
    /// Privileged functions, only for apps with sudo.
    Sudo,
    Wasip1,
}

/// The group of host functions that an import module name stands for: the full
/// names, and the one-letter aliases for graphics, input, net, stats, and misc.
pub open spec fn spec_host_module(name: Seq<u8>) -> Option<HostModule> {
    if name == "graphics".spec_bytes() || name == "g".spec_bytes() {
        Some(HostModule::Graphics)
    } else if name == "audio".spec_bytes() {
        Some(HostModule::Audio)
    } else if name == "input".spec_bytes() || name == "i".spec_bytes() {
        Some(HostModule::Input)
    } else if name == "menu".spec_bytes() {
        Some(HostModule::Menu)
    } else if name == "fs".spec_bytes() {
        Some(HostModule::Fs)
    } else if name == "net".spec_bytes() || name == "n".spec_bytes() {
        Some(HostModule::Net)
    } else if name == "stats".spec_bytes() || name == "s".spec_bytes() {
        Some(HostModule::Stats)
    } else if name == "misc".spec_bytes() || name == "m".spec_bytes() {
        Some(HostModule::Misc)
    } else if name == "sudo".spec_bytes() {
        Some(HostModule::Sudo)
    } else if name == "wasi_snapshot_preview1".spec_bytes() {
        Some(HostModule::Wasip1)
    } else {
        None
    }
}

/// The group of host functions for an import of the app, see [`spec_host_module`].
///
/// An unknown module name is an unknown host function, and the sudo functions
/// need an app with sudo.
pub fn host_module(module_name: &str, fn_name: &str, sudo: bool) -> (res: Result<HostModule, LinkingError>)
    ensures
        match spec_host_module(module_name.spec_bytes()) {
            None => res matches Err(LinkingError::UnknownHostFunction(m, n)) && m@ == module_name@ && n@ == fn_name@,
            Some(HostModule::Sudo) => if sudo {
                res matches Ok(HostModule::Sudo)
            } else {
                res matches Err(LinkingError::SudoDisabled)
            },
            Some(k) => res matches Ok(r) && r == k,
        },
{
    let b = module_name.as_bytes();
    let found = if bytes_eq(b, "graphics".as_bytes()) || bytes_eq(b, "g".as_bytes()) {
        Some(HostModule::Graphics)
    } else if bytes_eq(b, "audio".as_bytes()) {
        Some(HostModule::Audio)
    } else if bytes_eq(b, "input".as_bytes()) || bytes_eq(b, "i".as_bytes()) {
        Some(HostModule::Input)
    } else if bytes_eq(b, "menu".as_bytes()) {
        Some(HostModule::Menu)
    } else if bytes_eq(b, "fs".as_bytes()) {
        Some(HostModule::Fs)
    } else if bytes_eq(b, "net".as_bytes()) || bytes_eq(b, "n".as_bytes()) {
        Some(HostModule::Net)
    } else if bytes_eq(b, "stats".as_bytes()) || bytes_eq(b, "s".as_bytes()) {
        Some(HostModule::Stats)
    } else if bytes_eq(b, "misc".as_bytes()) || bytes_eq(b, "m".as_bytes()) {
        Some(HostModule::Misc)
    } else if bytes_eq(b, "sudo".as_bytes()) {
        Some(HostModule::Sudo)
    } else if bytes_eq(b, "wasi_snapshot_preview1".as_bytes()) {
        Some(HostModule::Wasip1)
    } else {
        None
    };
    match found {
        None => Err(LinkingError::UnknownHostFunction(String::from_str(module_name), String::from_str(fn_name))),
        Some(HostModule::Sudo) => if sudo {
            Ok(HostModule::Sudo)
        } else {
            Err(LinkingError::SudoDisabled)
        },
        Some(k) => Ok(k),
    }
}

/// The host functions that the runtime defines in each group, by name.
pub open spec fn spec_defined(group: HostModule, name: Seq<u8>) -> bool {
    match group {
        HostModule::Graphics => name == "clear_screen".spec_bytes() || name == "set_color".spec_bytes() || name == "draw_point".spec_bytes() || name == "draw_image".spec_bytes() || name == "draw_sub_image".spec_bytes() || name == "draw_qr".spec_bytes() || name == "draw_line".spec_bytes() || name == "draw_rect".spec_bytes() || name == "draw_rounded_rect".spec_bytes() || name == "draw_circle".spec_bytes() || name == "draw_ellipse".spec_bytes() || name == "draw_triangle".spec_bytes() || name == "draw_arc".spec_bytes() || name == "draw_sector".spec_bytes() || name == "draw_text".spec_bytes() || name == "set_canvas".spec_bytes() || name == "unset_canvas".spec_bytes(),
        HostModule::Audio => name == "add_sine".spec_bytes() || name == "add_square".spec_bytes() || name == "add_sawtooth".spec_bytes() || name == "add_noise".spec_bytes() || name == "add_empty".spec_bytes() || name == "add_zero".spec_bytes() || name == "add_gain".spec_bytes() || name == "mod_linear".spec_bytes() || name == "mod_hold".spec_bytes() || name == "mod_sine".spec_bytes() || name == "reset".spec_bytes() || name == "reset_all".spec_bytes() || name == "clear".spec_bytes(),
        HostModule::Input => name == "read_pad".spec_bytes() || name == "read_buttons".spec_bytes(),
        HostModule::Menu => name == "add_menu_item".spec_bytes() || name == "remove_menu_item".spec_bytes() || name == "open_menu".spec_bytes(),
        HostModule::Fs => name == "get_rom_file_size".spec_bytes() || name == "load_rom_file".spec_bytes() || name == "get_file_size".spec_bytes() || name == "load_file".spec_bytes() || name == "dump_file".spec_bytes() || name == "remove_file".spec_bytes(),
        HostModule::Net => name == "save_stash".spec_bytes() || name == "load_stash".spec_bytes(),
        HostModule::Stats => name == "add_progress".spec_bytes() || name == "add_score".spec_bytes(),
        HostModule::Misc => name == "log_debug".spec_bytes() || name == "log_error".spec_bytes() || name == "set_seed".spec_bytes() || name == "get_random".spec_bytes() || name == "quit".spec_bytes(),
        HostModule::Sudo => name == "list_dirs".spec_bytes() || name == "list_dirs_buf_size".spec_bytes() || name == "get_file_size".spec_bytes() || name == "load_file".spec_bytes() || name == "run_app".spec_bytes(),
        HostModule::Wasip1 => name == "environ_get".spec_bytes() || name == "environ_sizes_get".spec_bytes() || name == "clock_time_get".spec_bytes() || name == "proc_exit".spec_bytes(),
    }
}

/// True if the runtime defines a host function with the name in the group,
/// see [`spec_defined`].
pub fn host_function_defined(group: HostModule, name: &str) -> (res: bool)
    ensures
        res == spec_defined(group, name.spec_bytes()),
{
    let b = name.as_bytes();
    match group {
        HostModule::Graphics => bytes_eq(b, "clear_screen".as_bytes()) || bytes_eq(b, "set_color".as_bytes()) || bytes_eq(b, "draw_point".as_bytes()) || bytes_eq(b, "draw_image".as_bytes()) || bytes_eq(b, "draw_sub_image".as_bytes()) || bytes_eq(b, "draw_qr".as_bytes()) || bytes_eq(b, "draw_line".as_bytes()) || bytes_eq(b, "draw_rect".as_bytes()) || bytes_eq(b, "draw_rounded_rect".as_bytes()) || bytes_eq(b, "draw_circle".as_bytes()) || bytes_eq(b, "draw_ellipse".as_bytes()) || bytes_eq(b, "draw_triangle".as_bytes()) || bytes_eq(b, "draw_arc".as_bytes()) || bytes_eq(b, "draw_sector".as_bytes()) || bytes_eq(b, "draw_text".as_bytes()) || bytes_eq(b, "set_canvas".as_bytes()) || bytes_eq(b, "unset_canvas".as_bytes()),
        HostModule::Audio => bytes_eq(b, "add_sine".as_bytes()) || bytes_eq(b, "add_square".as_bytes()) || bytes_eq(b, "add_sawtooth".as_bytes()) || bytes_eq(b, "add_noise".as_bytes()) || bytes_eq(b, "add_empty".as_bytes()) || bytes_eq(b, "add_zero".as_bytes()) || bytes_eq(b, "add_gain".as_bytes()) || bytes_eq(b, "mod_linear".as_bytes()) || bytes_eq(b, "mod_hold".as_bytes()) || bytes_eq(b, "mod_sine".as_bytes()) || bytes_eq(b, "reset".as_bytes()) || bytes_eq(b, "reset_all".as_bytes()) || bytes_eq(b, "clear".as_bytes()),
        HostModule::Input => bytes_eq(b, "read_pad".as_bytes()) || bytes_eq(b, "read_buttons".as_bytes()),
        HostModule::Menu => bytes_eq(b, "add_menu_item".as_bytes()) || bytes_eq(b, "remove_menu_item".as_bytes()) || bytes_eq(b, "open_menu".as_bytes()),
        HostModule::Fs => bytes_eq(b, "get_rom_file_size".as_bytes()) || bytes_eq(b, "load_rom_file".as_bytes()) || bytes_eq(b, "get_file_size".as_bytes()) || bytes_eq(b, "load_file".as_bytes()) || bytes_eq(b, "dump_file".as_bytes()) || bytes_eq(b, "remove_file".as_bytes()),
        HostModule::Net => bytes_eq(b, "save_stash".as_bytes()) || bytes_eq(b, "load_stash".as_bytes()),
        HostModule::Stats => bytes_eq(b, "add_progress".as_bytes()) || bytes_eq(b, "add_score".as_bytes()),
        HostModule::Misc => bytes_eq(b, "log_debug".as_bytes()) || bytes_eq(b, "log_error".as_bytes()) || bytes_eq(b, "set_seed".as_bytes()) || bytes_eq(b, "get_random".as_bytes()) || bytes_eq(b, "quit".as_bytes()),
        HostModule::Sudo => bytes_eq(b, "list_dirs".as_bytes()) || bytes_eq(b, "list_dirs_buf_size".as_bytes()) || bytes_eq(b, "get_file_size".as_bytes()) || bytes_eq(b, "load_file".as_bytes()) || bytes_eq(b, "run_app".as_bytes()),
        HostModule::Wasip1 => bytes_eq(b, "environ_get".as_bytes()) || bytes_eq(b, "environ_sizes_get".as_bytes()) || bytes_eq(b, "clock_time_get".as_bytes()) || bytes_eq(b, "proc_exit".as_bytes()),
    }
}

/// The host function for an import of the app: its group, if the module is known,
/// allowed (sudo functions need an app with sudo), and defines a function of the name.
pub fn link_import(module_name: &str, fn_name: &str, sudo: bool) -> (res: Result<HostModule, LinkingError>)
    ensures
        match spec_host_module(module_name.spec_bytes()) {
            None => res matches Err(LinkingError::UnknownHostFunction(m, n)) && m@ == module_name@ && n@ == fn_name@,
            Some(g) => if g == HostModule::Sudo && !sudo {
                res matches Err(LinkingError::SudoDisabled)
            } else if spec_defined(g, fn_name.spec_bytes()) {
                res matches Ok(r) && r == g
            } else {
                res matches Err(LinkingError::UnknownHostFunction(m, n)) && m@ == module_name@ && n@ == fn_name@
            },
        },
{
    let group = host_module(module_name, fn_name, sudo)?;
    if host_function_defined(group, fn_name) {
        Ok(group)
    } else {
        Err(LinkingError::UnknownHostFunction(String::from_str(module_name), String::from_str(fn_name)))
    }
}

} // verus!
