use memory_cleanr::win32::startup::{
    decode_reg_sz, delete_outcome, elevation_relaunch_args, elevation_relaunch_args_for,
    encode_reg_sz, format_exe_launch_command, is_startup_launch, set_enabled, startup_command,
    sync, RunKeyUpdate, StartupError, ELEVATED_ARG, STARTUP_ARG,
};
use memory_cleanr::win32::startup::{exit_after_elevated_relaunch, needs_elevated_relaunch};

#[test]
fn startup_command_includes_startup_flag() {
    let exe = String::from("C:\\Program Files\\MemoryCleanr\\memory_cleanr.exe");
    let command = startup_command(Some(&exe)).expect("current_exe");
    assert!(command.ends_with(STARTUP_ARG));
    assert_eq!(command, format_exe_launch_command(&exe, &[STARTUP_ARG]));
}

#[test]
fn format_exe_launch_command_quotes_paths_with_spaces() {
    assert_eq!(
        format_exe_launch_command(r"C:\Program Files\App.exe", &["--startup"]),
        r#""C:\Program Files\App.exe" --startup"#
    );
    assert_eq!(
        format_exe_launch_command(r"C:\App.exe", &["--startup"]),
        r"C:\App.exe --startup"
    );
    assert_eq!(format_exe_launch_command(r"C:\App.exe", &[]), r"C:\App.exe");
}

#[test]
fn elevation_relaunch_args_for_startup_mode() {
    assert_eq!(
        elevation_relaunch_args_for(true),
        format!("{ELEVATED_ARG} {STARTUP_ARG}")
    );
    assert_eq!(elevation_relaunch_args_for(false), ELEVATED_ARG);
}

#[test]
fn startup_launch_is_read_from_the_arguments() {
    let args = vec!["app.exe".to_string(), "--startup".to_string()];
    assert!(is_startup_launch(&args));
    assert!(!is_startup_launch(&args[..1]));
    assert_eq!(elevation_relaunch_args(&args), "--elevated --startup");
    assert_eq!(format_exe_launch_command("a b", &["x", "y z"]), "\"a b\" x y z");
}

#[test]
fn run_value_reads_back_what_was_written() {
    for text in ["", "C:\\App.exe --startup", "\"C:\\Program Files\\应用.exe\" --startup", "emoji 😀"] {
        let bytes = encode_reg_sz(text);
        assert_eq!(bytes.len(), 2 * (text.encode_utf16().count() + 1));
        assert_eq!(decode_reg_sz(&bytes, bytes.len() as u32), text);
    }
    assert_eq!(encode_reg_sz("A"), vec![65, 0, 0, 0]);
}

#[test]
fn run_key_updates() {
    assert_eq!(set_enabled(false, None), Ok(RunKeyUpdate::Delete));
    assert_eq!(set_enabled(true, None), Err(StartupError::CurrentExeUnavailable));
    assert_eq!(
        sync(true, Some("C:\\App.exe")),
        Ok(RunKeyUpdate::Write(encode_reg_sz("C:\\App.exe --startup")))
    );
    assert_eq!(delete_outcome(0), Ok(()));
    assert_eq!(delete_outcome(2), Ok(()));
    assert_eq!(delete_outcome(5), Err(StartupError::Registry(5)));
}

#[test]
fn elevation_relaunch_decisions() {
    assert!(!needs_elevated_relaunch(Some(1)));
    assert!(needs_elevated_relaunch(Some(0)));
    assert!(needs_elevated_relaunch(None));
    assert!(exit_after_elevated_relaunch(42));
    assert!(!exit_after_elevated_relaunch(32));
    assert!(!exit_after_elevated_relaunch(5));
}
