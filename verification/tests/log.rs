use memory_cleanr::log::{log_line, set_debug_enabled, timestamp, LogState};

#[test]
fn log_lines_only_when_enabled() {
    let mut s = LogState::new();
    assert_eq!(log_line(&s, "1.000", "hi"), None);
    set_debug_enabled(&mut s, true);
    assert_eq!(log_line(&s, "1.000", "hi"), Some("[1.000] hi\n".to_string()));
    assert_eq!(timestamp(Some((1700000000, 7))), "1700000000.007");
    assert_eq!(timestamp(Some((5, 123))), "5.123");
    assert_eq!(timestamp(None), "unknown");
}
