use memory_cleanr::win32::single_instance::{
    ensure_gui_singleton, ensure_tray_singleton, tray_startup_retry_limit, wait_for_elevated_relaunch,
    wait_for_gui_exit, wide_name, AcquireAction, CreateOutcome, InstanceRole, PollAction, PollWait,
    GUI_MUTEX_NAME, TRAY_MUTEX_NAME, TRAY_STARTUP_RETRIES,
};

/// Drive a wait with a fixed sequence of probe answers; returns the result and the probes made.
fn run_wait(mut w: PollWait, answers: &[bool]) -> (bool, usize) {
    let mut probes = 0;
    let mut action = w.begin();
    loop {
        match action {
            PollAction::Check => {
                let a = answers.get(probes).copied().unwrap_or(false);
                probes += 1;
                action = w.probed(a);
            }
            PollAction::Sleep(_) => action = w.slept(),
            PollAction::Done(r) => return (r, probes),
        }
    }
}

#[test]
fn tray_startup_retry_limit_is_positive() {
    assert_eq!(tray_startup_retry_limit(), TRAY_STARTUP_RETRIES);
}

#[test]
fn tray_and_gui_mutex_names_differ() {
    assert_ne!(TRAY_MUTEX_NAME, GUI_MUTEX_NAME);
    assert_ne!(InstanceRole::Tray.mutex_name(), InstanceRole::Gui.mutex_name());
}

#[test]
fn wait_for_gui_exit_returns_true_when_gui_not_running() {
    // The probe asks "is the GUI mutex gone?"; with no GUI it is.
    assert!(run_wait(wait_for_gui_exit(0), &[true]).0);
}

#[test]
fn waits_probe_a_bounded_number_of_times() {
    assert_eq!(run_wait(wait_for_gui_exit(5000), &[]), (false, 101));
    assert_eq!(run_wait(wait_for_gui_exit(5000), &[false, false, true]), (true, 3));
    assert_eq!(run_wait(wait_for_elevated_relaunch(250), &[]), (false, 2));
    assert_eq!(run_wait(wait_for_elevated_relaunch(50), &[]), (false, 0));
}

#[test]
fn singleton_acquisition_retries_then_gives_up() {
    let mut a = ensure_tray_singleton();
    assert_eq!(a.begin(), AcquireAction::TryCreate);
    let mut last = AcquireAction::TryCreate;
    let mut attempts = 0;
    while last == AcquireAction::TryCreate || matches!(last, AcquireAction::CloseSleepAndRetry(_)) {
        attempts += 1;
        last = a.after_create(CreateOutcome::AlreadyExists);
    }
    assert_eq!(attempts, 30);
    assert_eq!(last, AcquireAction::AlreadyRunning);
    assert_eq!(InstanceRole::Tray.already_running_message(), "Tray host is already running");

    let mut g = ensure_gui_singleton();
    assert_eq!(g.begin(), AcquireAction::TryCreate);
    assert_eq!(g.after_create(CreateOutcome::Created), AcquireAction::Hold);
    let mut h = ensure_gui_singleton();
    assert_eq!(h.after_create(CreateOutcome::AlreadyExists), AcquireAction::AlreadyRunning);
    let mut k = ensure_gui_singleton();
    assert_eq!(k.after_create(CreateOutcome::Failed(5)), AcquireAction::Failed(5));
}

#[test]
fn mutex_names_are_nul_terminated_utf16() {
    let w = wide_name("ab");
    assert_eq!(w, vec![97, 98, 0]);
}
