use memory_cleanr::memory::MemoryStatus;
use memory_cleanr::win32::process::{
    kill_targets, working_set_error_message, working_set_targets,
    activate_or_spawn_gui, empty_working_sets_outcome, ensure_tray_host_running, exe_base_name,
    exe_name_matches, gui_instance_launch_spec, has_sibling_process, is_picker_hidden_process,
    is_process_excluded, is_process_running, launch_spec_for_path,
    list_processes_for_exclusion_picker, normalize_process_name, request_gui_shutdown,
    toggle_failure_log, toggle_gui_window, tray_instance_launch_spec, GuiFacts, GuiQuery,
    GuiSession, GuiStep, InstanceLaunchSpec, LaunchError, ProcessPickerEntry, ShutdownFacts,
    ShutdownStep, TrayStartError, TrayStartFacts, TrayStartStep,
};
use memory_cleanr::win32::startup::STARTUP_ARG;

fn current_exe() -> Option<String> {
    Some(String::from("C:\\Program Files\\MemoryCleanr\\memory_cleanr.exe"))
}

fn wide(s: &str) -> Vec<u16> {
    let mut v: Vec<u16> = s.encode_utf16().collect();
    v.resize(260, 0);
    v
}

#[test]
fn normalize_process_name_strips_exe_and_whitespace() {
    assert_eq!(normalize_process_name(" Chrome.EXE "), "chrome");
    assert_eq!(normalize_process_name("firefox"), "firefox");
}

#[test]
fn is_process_excluded_matches_case_insensitive_base_names() {
    let excluded = vec!["chrome".to_string()];
    assert!(is_process_excluded("Chrome.exe", &excluded));
    assert!(!is_process_excluded("firefox", &excluded));
}

#[test]
fn is_picker_hidden_process_matches_system_entries() {
    assert!(is_picker_hidden_process("[systemprocess]"));
    assert!(is_picker_hidden_process("systemidleprocess"));
    assert!(!is_picker_hidden_process("chrome"));
}

#[test]
fn process_picker_entry_memory_display() {
    let unknown = ProcessPickerEntry {
        name: "lsass".to_string(),
        instance_count: 1,
        working_set_bytes: 0,
        memory_readable_count: 0,
    };
    assert_eq!(unknown.memory_display(), None);

    let readable = ProcessPickerEntry {
        name: "chrome".to_string(),
        instance_count: 2,
        working_set_bytes: 512 * 1024 * 1024,
        memory_readable_count: 2,
    };
    assert_eq!(
        readable.memory_display(),
        Some(MemoryStatus::format_bytes(readable.working_set_bytes))
    );
}

#[test]
fn tray_instance_launch_spec_includes_startup_flag() {
    let spec = tray_instance_launch_spec(current_exe().as_deref()).expect("current_exe");
    assert_eq!(spec.args, vec![STARTUP_ARG.to_string()]);
}

#[test]
fn gui_instance_launch_spec_has_no_extra_args() {
    let spec = gui_instance_launch_spec(current_exe().as_deref()).expect("current_exe");
    assert!(spec.args.is_empty());
}

#[test]
fn launch_spec_for_path_builds_expected_command() {
    let spec = launch_spec_for_path(r"C:\Tools\MemoryCleanr.exe", &[STARTUP_ARG]);
    assert_eq!(
        spec,
        InstanceLaunchSpec {
            exe: r"C:\Tools\MemoryCleanr.exe".to_string(),
            args: vec![STARTUP_ARG.to_string()],
        }
    );
}

#[test]
fn launch_specs_without_current_exe_fail() {
    assert_eq!(tray_instance_launch_spec(None), Err(LaunchError::CurrentExeUnavailable));
    assert_eq!(gui_instance_launch_spec(None), Err(LaunchError::CurrentExeUnavailable));
}

#[test]
fn picker_aggregates_sorts_and_filters() {
    let excluded = vec!["firefox".to_string()];
    let samples = vec![
        ("zed".to_string(), Some(10u64)),
        ("chrome".to_string(), Some(100)),
        ("".to_string(), Some(1)),
        ("memorycleanr".to_string(), Some(1)),
        ("[systemprocess]".to_string(), None),
        ("firefox".to_string(), Some(5)),
        ("chrome".to_string(), None),
        ("chrome".to_string(), Some(u64::MAX)),
        ("alpha".to_string(), None),
    ];
    let entries = list_processes_for_exclusion_picker("MemoryCleanr.exe", &excluded, &samples);
    let names: Vec<_> = entries.iter().map(|e| e.name.as_str()).collect();
    assert_eq!(names, vec!["alpha", "chrome", "zed"]);
    assert_eq!(entries[0].instance_count, 1);
    assert_eq!(entries[0].memory_readable_count, 0);
    assert_eq!(entries[0].working_set_bytes, 0);
    assert_eq!(entries[1].instance_count, 3);
    assert_eq!(entries[1].memory_readable_count, 2);
    assert_eq!(entries[1].working_set_bytes, u64::MAX);
    assert_eq!(entries[2].working_set_bytes, 10);
}

#[test]
fn snapshot_lookups_compare_the_nul_terminated_name() {
    let procs = vec![(4u32, wide("System")), (100, wide("MemoryCleanr.exe")), (200, wide("MemoryCleanr.exe"))];
    assert!(exe_name_matches(&wide("MemoryCleanr.exe"), &"MemoryCleanr.exe".encode_utf16().collect::<Vec<_>>()));
    assert!(!exe_name_matches(&wide("MemoryCleanr.exe"), &"MemoryCleanr".encode_utf16().collect::<Vec<_>>()));
    assert!(is_process_running("MemoryCleanr.exe", &procs));
    assert!(!is_process_running("memorycleanr.exe", &procs));
    assert!(has_sibling_process(100, "MemoryCleanr.exe", &procs));
    assert!(!has_sibling_process(100, "MemoryCleanr.exe", &procs[..2]));
    assert_eq!(exe_base_name(&wide(" Chrome.EXE")), "chrome");
}

#[test]
fn toggle_gui_window_decisions() {
    let mut f = GuiFacts::unknown();
    assert_eq!(toggle_gui_window(&f), GuiStep::Ask(GuiQuery::Session));
    f.session = Some(Some(GuiSession { hwnd: 42, pid: 7 }));
    assert_eq!(toggle_gui_window(&f), GuiStep::Ask(GuiQuery::HwndVisible(42)));
    f.hwnd_visible = Some(true);
    assert_eq!(toggle_gui_window(&f), GuiStep::RequestHwndClose(42));
    f.hwnd_visible = Some(false);
    assert_eq!(toggle_gui_window(&f), GuiStep::ActivateHwnd(42));
    let mut g = GuiFacts::unknown();
    g.session = Some(None);
    g.gui_running = Some(false);
    assert_eq!(toggle_gui_window(&g), GuiStep::SpawnGui);
    g.gui_running = Some(true);
    assert_eq!(toggle_gui_window(&g), GuiStep::Ask(GuiQuery::GuiWindowVisible));
    g.gui_window_visible = Some(false);
    assert_eq!(toggle_gui_window(&g), GuiStep::ActivateGuiWindow);
    assert_eq!(toggle_failure_log(GuiStep::RequestGuiClose), Some("[tray] failed to request GUI close"));
    assert_eq!(activate_or_spawn_gui(&g), GuiStep::ActivateGuiWindow);
}

#[test]
fn tray_host_start_sequence() {
    let mut f = TrayStartFacts::unknown();
    assert_eq!(ensure_tray_host_running(&f), TrayStartStep::CheckTrayRunning);
    f.tray_running = Some(false);
    assert_eq!(ensure_tray_host_running(&f), TrayStartStep::SpawnTray);
    f.spawned = Some(true);
    assert_eq!(ensure_tray_host_running(&f), TrayStartStep::AwaitReadySignal);
    f.ready_signal = Some(false);
    assert_eq!(ensure_tray_host_running(&f), TrayStartStep::WaitForTrayHost);
    f.host_appeared = Some(false);
    assert_eq!(ensure_tray_host_running(&f), TrayStartStep::Failed(TrayStartError::Timeout));
}

#[test]
fn gui_shutdown_terminates_a_registered_gui_that_stays() {
    let mut f = ShutdownFacts::unknown();
    assert_eq!(request_gui_shutdown(&f), ShutdownStep::AskSession);
    f.session = Some(Some(GuiSession { hwnd: 9, pid: 77 }));
    assert_eq!(request_gui_shutdown(&f), ShutdownStep::RequestHwndClose(9));
    f.close_requested = true;
    assert_eq!(request_gui_shutdown(&f), ShutdownStep::WaitForGuiExit);
    f.exited = Some(false);
    assert_eq!(request_gui_shutdown(&f), ShutdownStep::AskStillThere(77));
    f.still_there = Some(true);
    assert_eq!(request_gui_shutdown(&f), ShutdownStep::Terminate(77));
    f.terminated = true;
    assert_eq!(request_gui_shutdown(&f), ShutdownStep::ClearSessionAndFinish);
    let mut g = ShutdownFacts::unknown();
    g.session = Some(None);
    g.gui_running = Some(true);
    g.close_requested = true;
    g.exited = Some(false);
    assert_eq!(request_gui_shutdown(&g), ShutdownStep::LogNotExitedAndFinish);
}

#[test]
fn working_set_errors_are_reported_together() {
    assert_eq!(empty_working_sets_outcome(&[]), Ok(()));
    assert_eq!(
        empty_working_sets_outcome(&["a (pid 1): x".to_string(), "b (pid 2): y".to_string()]),
        Err("Working Set per-process errors: a (pid 1): x, b (pid 2): y".to_string())
    );
}

#[test]
fn kill_targets_are_every_matching_process() {
    let processes = vec![
        (10u32, wide("app.exe")),
        (11u32, wide("other.exe")),
        (12u32, wide("app.exe")),
        (13u32, wide("App.exe")),
    ];
    assert_eq!(kill_targets("app.exe", &processes), vec![10, 12]);
    assert!(kill_targets("none.exe", &processes).is_empty());
}

#[test]
fn working_set_targets_skip_excluded_processes() {
    let processes = vec![
        (4u32, wide("Chrome.exe")),
        (5u32, wide("explorer.exe")),
        (6u32, wide("chrome.exe")),
    ];
    let excluded = vec!["chrome".to_string()];
    assert_eq!(working_set_targets(&excluded, &processes), vec![(5, "explorer".to_string())]);
    assert_eq!(working_set_targets(&[], &processes).len(), 3);
}

#[test]
fn working_set_error_lines_match_the_report_format() {
    assert_eq!(working_set_error_message("svc", 42, 87), "svc (pid 42): WIN32_ERROR(87)");
}
