use memory_cleanr::memory::MemoryStatus;
use memory_cleanr::messages::{build_cleanup_result_message, format_freed_message};

#[test]
fn format_freed_message_only_when_memory_increased() {
    assert_eq!(format_freed_message(1_000, 2_000_000_000), "+1.86 GB");
    assert_eq!(format_freed_message(2_000, 1_000), "");
}

#[test]
fn build_cleanup_result_message_variants() {
    assert_eq!(build_cleanup_result_message(&[], &[], ""), "未执行清理");
    assert_eq!(
        build_cleanup_result_message(&[], &["工作集"], ""),
        "清理失败：工作集"
    );
    assert_eq!(
        build_cleanup_result_message(&["工作集"], &[], ""),
        "清理完成（1 项）"
    );
    assert_eq!(
        build_cleanup_result_message(&["工作集"], &[], "+512.00 MB"),
        "清理完成 · +512.00 MB"
    );
    assert_eq!(
        build_cleanup_result_message(&["工作集", "待机列表"], &["注册表缓存"], ""),
        "完成 2 项，失败：注册表缓存"
    );
}

#[test]
fn format_bytes_units_and_rounding() {
    assert_eq!(MemoryStatus::format_bytes(0), "0 B");
    assert_eq!(MemoryStatus::format_bytes(1023), "1023 B");
    assert_eq!(MemoryStatus::format_bytes(1024), "1.00 KB");
    assert_eq!(MemoryStatus::format_bytes(1536), "1.50 KB");
    assert_eq!(MemoryStatus::format_bytes(512 * 1024 * 1024), "512.00 MB");
    assert_eq!(MemoryStatus::format_bytes(1_999_999_000), "1.86 GB");
    assert_eq!(MemoryStatus::format_bytes(u64::MAX), "17179869184.00 GB");
    // 1152 B is 1.125 KB exactly, half-way between 1.12 and 1.13.
    assert_eq!(MemoryStatus::format_bytes(1152), format!("{:.2} KB", 1152f64 / 1024f64));
    assert_eq!(MemoryStatus::format_bytes(1152 + 256), format!("{:.2} KB", 1408f64 / 1024f64));
    for b in [1030u64, 4096 + 77, 3 * 1024 * 1024 + 12345, 7 * 1024 * 1024 * 1024 + 999_999] {
        let unit = if b >= 1 << 30 { (1u64 << 30, "GB") } else if b >= 1 << 20 { (1 << 20, "MB") } else { (1 << 10, "KB") };
        assert_eq!(MemoryStatus::format_bytes(b), format!("{:.2} {}", b as f64 / unit.0 as f64, unit.1));
    }
    assert_eq!(
        MemoryStatus::format_bytes(1029),
        format!("{:.2} KB", 1029f64 / 1024f64)
    );
}

#[test]
fn failures_are_joined_with_the_list_separator() {
    assert_eq!(
        build_cleanup_result_message(&[], &["工作集", "待机列表"], "ignored"),
        "清理失败：工作集、待机列表"
    );
}
