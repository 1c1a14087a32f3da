use memory_cleanr::version::APP_NAME;
use memory_cleanr::win32::focus::{force_foreground_attach_plan, FocusTracker};
use memory_cleanr::win32::message_loop::{message_loop_step, LoopAction, WM_APP_TRAY_CMD, WM_DESTROY, WM_TIMER};
use memory_cleanr::win32::window::{
    activate_gui_window, gui_window_title_matches, hide_to_tray_ex_style, request_gui_close,
    restore_show_command, show_from_tray_ex_style, window_title_is_gui, without_maximize_box,
    GuiWindowLookup, SW_RESTORE, SW_SHOW,
};

#[test]
fn gui_window_title_matches_app_name_only() {
    assert!(gui_window_title_matches(APP_NAME));
    assert!(!gui_window_title_matches("Memory Cleanr"));
    assert!(!gui_window_title_matches(""));
}

#[test]
fn window_styles_move_between_taskbar_and_tray() {
    let style = 0x0004_0100u32; // APPWINDOW | WINDOWEDGE
    let hidden = hide_to_tray_ex_style(style);
    assert_eq!(hidden, 0x0000_0180);
    assert_eq!(show_from_tray_ex_style(hidden), style);
    assert_eq!(without_maximize_box(0x0001_0000 | 0x80000), 0x80000);
    assert_eq!(restore_show_command(true), SW_RESTORE);
    assert_eq!(restore_show_command(false), SW_SHOW);
    let title: Vec<u16> = APP_NAME.encode_utf16().collect();
    assert!(window_title_is_gui(&title));
    assert_eq!(activate_gui_window(Some(3)), GuiWindowLookup::Registered(3));
    assert_eq!(request_gui_close(None), GuiWindowLookup::SearchByTitle);
}

#[test]
fn focus_tracking_skips_our_window() {
    let mut f = FocusTracker::new();
    f.set_our_hwnd(10);
    f.save_current_focus(10);
    assert_eq!(f.restore_previous_foreground(), None);
    f.save_current_focus(20);
    assert_eq!(f.restore_previous_foreground(), Some(20));
    f.capture_foreground_after_hide(0);
    assert_eq!(f.prev_foreground, 20);
    assert_eq!(f.paste_target_hwnd(true, 30), Some(20));
    assert_eq!(f.paste_target_hwnd(false, 30), Some(30));
    assert_eq!(f.paste_target_hwnd(false, 10), None);
    assert_eq!(f.restore_our_foreground(true), Some(10));
    f.clear_our_hwnd();
    assert_eq!(f.our_hwnd(), None);
    let plan = force_foreground_attach_plan(1, 2, 2);
    assert!(plan.foreground_thread && !plan.target_thread);
}

#[test]
fn tray_message_loop_reactions() {
    assert_eq!(message_loop_step(0, WM_TIMER), LoopAction::Quit);
    assert_eq!(message_loop_step(-1, WM_TIMER), LoopAction::Failed);
    assert_eq!(message_loop_step(1, WM_TIMER), LoopAction::Dispatch(WM_TIMER));
    assert_eq!(message_loop_step(1, WM_APP_TRAY_CMD), LoopAction::Dispatch(0x400 + 42));
    assert_eq!(message_loop_step(1, WM_DESTROY), LoopAction::StopTimerAndQuit);
    assert_eq!(message_loop_step(1, 0x0F), LoopAction::PassOn);
}
