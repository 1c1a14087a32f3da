//! The tray host's hidden message window: which messages it reacts to and how.
use vstd::prelude::*;

verus! {

/// `WM_DESTROY`
pub const WM_DESTROY: u32 = 0x0002;

/// `WM_TIMER`
pub const WM_TIMER: u32 = 0x0113;

/// `WM_USER`
pub const WM_USER: u32 = 0x0400;

/// The tray command message: `WM_USER + 42`.
pub const WM_APP_TRAY_CMD: u32 = 0x042A;

/// Id of the tray host's timer.
pub const TIMER_ID: usize = 1;

/// Period of the tray host's timer.
pub const TIMER_INTERVAL_MS: u32 = 500;

/// What the message loop does with what `GetMessageW` returned.
#[derive(Clone, Copy, Debug, PartialEq, Eq, Structural)]
pub enum LoopAction {
    /// `WM_QUIT` arrived: log it and leave the loop.
    Quit,
    /// `GetMessageW` failed: log it and leave the loop.
    Failed,
    /// Hand this message to the tray host, then translate and dispatch it.
    Dispatch(u32),
    /// Kill the timer and post `WM_QUIT`, then translate and dispatch the message.
    StopTimerAndQuit,
    /// Only translate and dispatch the message.
    PassOn,
}

/// The loop's reaction: 0 is `WM_QUIT`, -1 an error; the timer and the tray
/// command go to the tray host; `WM_DESTROY` stops the loop.
pub fn message_loop_step(get_message_result: i32, message: u32) -> (r: LoopAction)
    ensures
        get_message_result == 0 ==> r == LoopAction::Quit,
        get_message_result == -1 ==> r == LoopAction::Failed,
        get_message_result != 0 && get_message_result != -1 ==> (if message == WM_TIMER
            || message == WM_APP_TRAY_CMD {
            r == LoopAction::Dispatch(message)
        } else if message == WM_DESTROY {
            r == LoopAction::StopTimerAndQuit
        } else {
            r == LoopAction::PassOn
        }),
{
    if get_message_result == 0 {
        LoopAction::Quit
    } else if get_message_result == -1 {
        LoopAction::Failed
    } else if message == WM_TIMER || message == WM_APP_TRAY_CMD {
        LoopAction::Dispatch(message)
    } else if message == WM_DESTROY {
        LoopAction::StopTimerAndQuit
    } else {
        LoopAction::PassOn
    }
}

/// The window procedure: `WM_DESTROY` posts `WM_QUIT` and is handled (0);
/// everything else goes to `DefWindowProcW` (`None`).
pub fn tray_host_wnd_proc(message: u32) -> (r: Option<isize>)
    ensures
        message == WM_DESTROY ==> r == Some(0isize),
        message != WM_DESTROY ==> r is None,
{
    if message == WM_DESTROY {
        Some(0)
    } else {
        None
    }
}

} // verus!
