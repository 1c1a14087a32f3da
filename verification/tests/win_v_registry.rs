use memory_cleanr::win32::win_v_registry::{
    disable_win_v, enable_win_v, is_win_v_disabled, read_reg_string, HotkeyValueUpdate,
};

#[test]
fn read_current_state() {
    // Just verify it doesn't panic
    let _disabled = is_win_v_disabled("");
}

#[test]
fn win_v_disable_then_enable_restores_the_value() {
    assert_eq!(disable_win_v(""), Some("V".to_string()));
    assert_eq!(disable_win_v("XV"), None);
    let disabled = disable_win_v("AB").expect("changed");
    assert_eq!(disabled, "ABV");
    assert!(is_win_v_disabled(&disabled));
    assert_eq!(enable_win_v(&disabled), Some(HotkeyValueUpdate::Write("AB".to_string())));
    assert_eq!(enable_win_v("V"), Some(HotkeyValueUpdate::Delete));
    assert_eq!(enable_win_v("VxVV"), Some(HotkeyValueUpdate::Write("x".to_string())));
    assert_eq!(enable_win_v("AB"), None);
}

#[test]
fn registry_string_is_cut_at_nul() {
    let mut buf = [0u16; 256];
    for (i, u) in "QV".encode_utf16().enumerate() {
        buf[i] = u;
    }
    assert_eq!(read_reg_string(0, true, &buf, 6), Some("QV".to_string()));
    assert_eq!(read_reg_string(0, true, &buf, 2), Some("Q".to_string()));
    // Absent value: empty text.
    assert_eq!(read_reg_string(2, true, &buf, 0), Some(String::new()));
    // Another type, a value too long for the buffer (ERROR_MORE_DATA), any
    // other failure: unreadable, nothing may be written over it.
    assert_eq!(read_reg_string(0, false, &buf, 6), None);
    assert_eq!(read_reg_string(234, true, &buf, 6), None);
    assert_eq!(read_reg_string(5, true, &buf, 6), None);
}
