//! Which window had the focus before ours, so that paste can go back to it.
//!
//! The program runs elevated; input sent to medium-integrity applications is
//! blocked, so paste restores the previous window and posts `WM_PASTE` to it.
use vstd::prelude::*;

verus! {

/// The windows the focus logic remembers (0 = none).
#[derive(Clone, Copy, Debug, PartialEq, Eq, Structural)]
pub struct FocusTracker {
    /// The last foreground window that was not ours.
    pub prev_foreground: isize,
    /// Our main window.
    pub our_hwnd: isize,
}

impl FocusTracker {
    /// A tracker that knows no window yet.
    pub fn new() -> (r: FocusTracker)
        ensures
            r.prev_foreground == 0 && r.our_hwnd == 0,
    {
        FocusTracker { prev_foreground: 0, our_hwnd: 0 }
    }

    /// Remember our main window (excluded when saving the previous focus).
    pub fn set_our_hwnd(&mut self, hwnd: isize)
        ensures
            final(self).our_hwnd == hwnd,
            final(self).prev_foreground == old(self).prev_foreground,
    {
        self.our_hwnd = hwnd;
    }

    pub fn clear_our_hwnd(&mut self)
        ensures
            final(self).our_hwnd == 0,
            final(self).prev_foreground == old(self).prev_foreground,
    {
        self.our_hwnd = 0;
    }

    /// Our main window, when one is known (its validity is for `IsWindow` to say).
    pub fn our_hwnd(&self) -> (r: Option<isize>)
        ensures
            self.our_hwnd == 0 ==> r is None,
            self.our_hwnd != 0 ==> r == Some(self.our_hwnd),
    {
        if self.our_hwnd == 0 {
            None
        } else {
            Some(self.our_hwnd)
        }
    }

    /// Save the current foreground window if it is not our own.
    pub fn save_current_focus(&mut self, foreground: isize)
        ensures
            final(self).our_hwnd == old(self).our_hwnd,
            (foreground == 0 || (old(self).our_hwnd != 0 && foreground == old(self).our_hwnd))
                ==> final(self).prev_foreground == old(self).prev_foreground,
            !(foreground == 0 || (old(self).our_hwnd != 0 && foreground == old(self).our_hwnd))
                ==> final(self).prev_foreground == foreground,
    {
        if foreground == 0 {
            return;
        }
        if self.our_hwnd != 0 && foreground == self.our_hwnd {
            return;
        }
        self.prev_foreground = foreground;
    }

    /// After we hide ourselves, remember whoever Windows activated.
    pub fn capture_foreground_after_hide(&mut self, foreground: isize)
        ensures
            final(self).our_hwnd == old(self).our_hwnd,
            (foreground != 0 && foreground != old(self).our_hwnd) ==> final(self).prev_foreground
                == foreground,
            !(foreground != 0 && foreground != old(self).our_hwnd) ==> final(self).prev_foreground
                == old(self).prev_foreground,
    {
        if foreground != 0 && foreground != self.our_hwnd {
            self.prev_foreground = foreground;
        }
    }

    /// The previously saved foreground window, if any.
    pub fn restore_previous_foreground(&self) -> (r: Option<isize>)
        ensures
            self.prev_foreground == 0 ==> r is None,
            self.prev_foreground != 0 ==> r == Some(self.prev_foreground),
    {
        if self.prev_foreground == 0 {
            None
        } else {
            Some(self.prev_foreground)
        }
    }

    /// The window to bring back after paste: ours, when it is known and still a window.
    pub fn restore_our_foreground(&self, our_is_window: bool) -> (r: Option<isize>)
        ensures
            (self.our_hwnd != 0 && our_is_window) ==> r == Some(self.our_hwnd),
            !(self.our_hwnd != 0 && our_is_window) ==> r is None,
    {
        if self.our_hwnd != 0 && our_is_window {
            Some(self.our_hwnd)
        } else {
            None
        }
    }

    /// The window that receives paste: the saved one while it is still a window,
    /// else the current foreground window unless it is none or ours.
    pub fn paste_target_hwnd(&self, prev_is_window: bool, foreground: isize) -> (r: Option<isize>)
        ensures
            (self.prev_foreground != 0 && prev_is_window) ==> r == Some(self.prev_foreground),
            !(self.prev_foreground != 0 && prev_is_window) && foreground != 0 && foreground
                != self.our_hwnd ==> r == Some(foreground),
            !(self.prev_foreground != 0 && prev_is_window) && !(foreground != 0 && foreground
                != self.our_hwnd) ==> r is None,
    {
        if self.prev_foreground != 0 && prev_is_window {
            return Some(self.prev_foreground);
        }
        if foreground != 0 && foreground != self.our_hwnd {
            Some(foreground)
        } else {
            None
        }
    }
}

/// Recording the focus never records "no window", nor our own window when it is known.
pub proof fn lemma_saved_focus_is_foreign(before: FocusTracker, after: FocusTracker, foreground: isize)
    requires
        after.our_hwnd == before.our_hwnd,
        (foreground == 0 || (before.our_hwnd != 0 && foreground == before.our_hwnd))
            ==> after.prev_foreground == before.prev_foreground,
        !(foreground == 0 || (before.our_hwnd != 0 && foreground == before.our_hwnd))
            ==> after.prev_foreground == foreground,
        after.prev_foreground != before.prev_foreground,
    ensures
        after.prev_foreground != 0,
        after.our_hwnd != 0 ==> after.prev_foreground != after.our_hwnd,
{
}

/// Which threads' input queues to attach before forcing a window to the foreground.
#[derive(Clone, Copy, Debug, PartialEq, Eq, Structural)]
pub struct AttachPlan {
    /// Attach to the thread of the current foreground window.
    pub foreground_thread: bool,
    /// Attach to the thread of the target window.
    pub target_thread: bool,
}

/// Attach to a thread only when it is known, not ours, and not attached already.
pub fn force_foreground_attach_plan(current_tid: u32, foreground_tid: u32, target_tid: u32) -> (r:
    AttachPlan)
    ensures
        r.foreground_thread == (foreground_tid != 0 && foreground_tid != current_tid),
        r.target_thread == (target_tid != 0 && target_tid != current_tid && target_tid
            != foreground_tid),
{
    AttachPlan {
        foreground_thread: foreground_tid != 0 && foreground_tid != current_tid,
        target_thread: target_tid != 0 && target_tid != current_tid && target_tid != foreground_tid,
    }
}

} // verus!
