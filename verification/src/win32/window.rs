//! Window rules: which window is the GUI, the style bits that move a window
//! between the taskbar and the notification area, and which window a GUI
//! command addresses.
use vstd::prelude::*;

use crate::version::APP_NAME;
use crate::win32::wide::{utf16_decode, utf16_to_string};

verus! {

/// `WS_EX_TOOLWINDOW`
pub const WS_EX_TOOLWINDOW: u32 = 0x80;

/// `WS_EX_APPWINDOW`
pub const WS_EX_APPWINDOW: u32 = 0x40000;

/// `WS_MAXIMIZEBOX`
pub const WS_MAXIMIZEBOX: u32 = 0x10000;

/// `SW_SHOW`
pub const SW_SHOW: i32 = 5;

/// `SW_RESTORE`
pub const SW_RESTORE: i32 = 9;

/// `HWND_TOPMOST`
pub const HWND_TOPMOST: isize = -1;

/// `HWND_NOTOPMOST`
pub const HWND_NOTOPMOST: isize = -2;

/// Returns true when the given window title belongs to the main GUI window.
pub fn gui_window_title_matches(title: &str) -> (r: bool)
    ensures
        r == (title@ == APP_NAME@),
{
    let t = String::from_str(title);
    let app = String::from_str(APP_NAME);
    t == app
}

/// A window whose title (as read by `GetWindowTextW`) is the GUI's.
pub fn window_title_is_gui(title_units: &[u16]) -> (r: bool)
    ensures
        r == (utf16_decode(title_units@) == APP_NAME@),
{
    let title = utf16_to_string(title_units);
    gui_window_title_matches(title.as_str())
}

/// Extended style of a window hidden to the notification area: no taskbar button.
pub open spec fn tray_ex_style(style: u32) -> u32 {
    (style & !WS_EX_APPWINDOW) | WS_EX_TOOLWINDOW
}

/// Extended style of a window restored from the notification area: a taskbar button again.
pub open spec fn taskbar_ex_style(style: u32) -> u32 {
    (style & !WS_EX_TOOLWINDOW) | WS_EX_APPWINDOW
}

pub fn hide_to_tray_ex_style(style: u32) -> (r: u32)
    ensures
        r == tray_ex_style(style),
{
    (style & !WS_EX_APPWINDOW) | WS_EX_TOOLWINDOW
}

pub fn show_from_tray_ex_style(style: u32) -> (r: u32)
    ensures
        r == taskbar_ex_style(style),
{
    (style & !WS_EX_TOOLWINDOW) | WS_EX_APPWINDOW
}

/// Window style without the maximize/restore button.
pub fn without_maximize_box(style: u32) -> (r: u32)
    ensures
        r == style & !WS_MAXIMIZEBOX,
{
    style & !WS_MAXIMIZEBOX
}

/// Hiding to the tray and showing again gives the window its taskbar button
/// back and changes no other style bit; hiding twice is hiding once.
pub proof fn lemma_tray_round_trip(style: u32)
    ensures
        taskbar_ex_style(tray_ex_style(style)) == taskbar_ex_style(style),
        tray_ex_style(tray_ex_style(style)) == tray_ex_style(style),
        taskbar_ex_style(tray_ex_style(style)) & WS_EX_APPWINDOW == WS_EX_APPWINDOW,
        taskbar_ex_style(tray_ex_style(style)) & WS_EX_TOOLWINDOW == 0,
        taskbar_ex_style(tray_ex_style(style)) & !(WS_EX_APPWINDOW | WS_EX_TOOLWINDOW) == style
            & !(WS_EX_APPWINDOW | WS_EX_TOOLWINDOW),
{
    assert(((((style & !0x40000u32) | 0x80u32) & !0x80u32) | 0x40000u32) == (((style & !0x80u32)
        | 0x40000u32))) by (bit_vector);
    assert((((style & !0x40000u32) | 0x80u32) & !0x40000u32) | 0x80u32 == (style & !0x40000u32)
        | 0x80u32) by (bit_vector);
    assert(((((style & !0x40000u32) | 0x80u32) & !0x80u32) | 0x40000u32) & 0x40000u32
        == 0x40000u32) by (bit_vector);
    assert(((((style & !0x40000u32) | 0x80u32) & !0x80u32) | 0x40000u32) & 0x80u32 == 0u32)
        by (bit_vector);
    assert(((((style & !0x40000u32) | 0x80u32) & !0x80u32) | 0x40000u32) & !(0x40000u32
        | 0x80u32) == style & !(0x40000u32 | 0x80u32)) by (bit_vector);
}

/// The show command for bringing a window back: restore a minimized window, else show it.
pub fn restore_show_command(is_iconic: bool) -> (r: i32)
    ensures
        is_iconic ==> r == SW_RESTORE,
        !is_iconic ==> r == SW_SHOW,
{
    if is_iconic {
        SW_RESTORE
    } else {
        SW_SHOW
    }
}

/// The z-order slot for the always-on-top setting.
pub fn topmost_insert_after(on_top: bool) -> (r: isize)
    ensures
        on_top ==> r == HWND_TOPMOST,
        !on_top ==> r == HWND_NOTOPMOST,
{
    if on_top {
        HWND_TOPMOST
    } else {
        HWND_NOTOPMOST
    }
}

/// How to find the GUI window a command is for.
#[derive(Clone, Copy, Debug, PartialEq, Eq, Structural)]
pub enum GuiWindowLookup {
    /// The window the GUI registered.
    Registered(isize),
    /// Search the top-level windows by title.
    SearchByTitle,
}

/// The window to bring to the foreground: the registered one, else the one found by title.
pub fn activate_gui_window(registered: Option<isize>) -> (r: GuiWindowLookup)
    ensures
        registered matches Some(h) ==> r == GuiWindowLookup::Registered(h),
        registered is None ==> r == GuiWindowLookup::SearchByTitle,
{
    match registered {
        Some(h) => GuiWindowLookup::Registered(h),
        None => GuiWindowLookup::SearchByTitle,
    }
}

/// The window to ask to close (`WM_CLOSE`): the registered one, else the one found by title.
pub fn request_gui_close(registered: Option<isize>) -> (r: GuiWindowLookup)
    ensures
        registered matches Some(h) ==> r == GuiWindowLookup::Registered(h),
        registered is None ==> r == GuiWindowLookup::SearchByTitle,
{
    match registered {
        Some(h) => GuiWindowLookup::Registered(h),
        None => GuiWindowLookup::SearchByTitle,
    }
}

} // verus!
