use memory_cleanr::clipboard::handler::{
    hash_text, path_display_name, process, process_files, process_text, truncate_chars,
    MAX_TEXT_SIZE,
};
use memory_cleanr::clipboard::{ContentType, RawClipboardContent};

#[test]
fn text_preview_truncation() {
    let long = "a".repeat(500);
    let result = process_text(long);
    assert!(result.preview.len() <= 210); // 200 chars + "…"
    assert!(result.preview.ends_with('…'));
}

#[test]
fn text_hash_deterministic() {
    assert_eq!(hash_text("hello"), hash_text("hello"));
    assert_ne!(hash_text("hello"), hash_text("world"));
}

#[test]
fn file_single_preview() {
    let result = process_files(vec!["C:\\test\\file.txt".into()], None, &[0]);
    assert_eq!(result.preview, "file.txt");
}

#[test]
fn file_multi_preview() {
    let result = process_files(
        vec!["C:\\a.txt".into(), "C:\\b.txt".into(), "C:\\c.txt".into()],
        None,
        &[0, 0, 0],
    );
    assert_eq!(result.preview, "a.txt (+2)");
}

#[test]
fn truncate_short_string() {
    assert_eq!(truncate_chars("abc", 10), "abc");
}

#[test]
fn truncate_exact_boundary() {
    assert_eq!(truncate_chars("abcde", 5), "abcde");
}

#[test]
fn truncate_utf8_boundary() {
    // "你好世界" = 4 chars; max_chars=2 keeps 2 full chars + "…"
    assert_eq!(truncate_chars("你好世界", 2), "你好…");
}

#[test]
fn hash_of_empty_text_is_blake3_of_nothing() {
    assert_eq!(
        hash_text(""),
        "af1349b9f5f9a1a6a0404dea36dcc9499bcb25c9adc112b7cc9a93cae41f3262"
    );
    let h = hash_text("hello");
    assert_eq!(h.len(), 64);
    assert!(h.chars().all(|c| c.is_ascii_hexdigit() && !c.is_ascii_uppercase()));
    assert_ne!(h, "hello");
}

#[test]
fn oversized_text_is_cut_on_a_char_boundary() {
    // 3-byte characters: 349525 of them fit in 1 MiB (1048575 bytes), the next does not.
    let text = "你".repeat(400_000);
    let result = process_text(text);
    let kept = result.text_content.expect("text");
    assert_eq!(kept.chars().count(), 349_525);
    assert_eq!(result.byte_size, 1_048_575);
    assert!(kept.len() <= MAX_TEXT_SIZE);
    assert_eq!(result.content_hash, hash_text(&kept));
    assert_eq!(result.content_type, ContentType::Text);
    assert!(result.file_paths.is_none());
}

#[test]
fn short_text_is_kept_whole() {
    let result = process_text("héllo".to_string());
    assert_eq!(result.text_content.as_deref(), Some("héllo"));
    assert_eq!(result.byte_size, 6);
    assert_eq!(result.preview, "héllo");
}

#[test]
fn file_hash_ignores_path_order_and_sizes_add_up() {
    let a = process_files(vec!["C:\\b.txt".into(), "C:\\a.txt".into()], None, &[5, 7]);
    let b = process_files(vec!["C:\\a.txt".into(), "C:\\b.txt".into()], None, &[7, 5]);
    assert_eq!(a.content_hash, b.content_hash);
    assert_eq!(a.content_hash, hash_text("C:\\a.txt\0C:\\b.txt"));
    assert_eq!(a.byte_size, 12);
    assert_eq!(a.content_type, ContentType::File);
    assert_eq!(
        a.file_paths,
        Some(vec!["C:\\b.txt".to_string(), "C:\\a.txt".to_string()])
    );
}

#[test]
fn process_dispatches_on_content_kind() {
    let t = process(RawClipboardContent::Text("x".into()), None, &[]);
    assert_eq!(t.content_type, ContentType::Text);
    let f = process(RawClipboardContent::Files(vec!["D:\\dir\\".into()]), Some("explorer"), &[3]);
    assert_eq!(f.preview, "dir");
    assert_eq!(f.byte_size, 3);
}

#[test]
fn path_display_names_follow_windows_rules() {
    assert_eq!(path_display_name("C:\\dir\\sub\\"), "sub");
    assert_eq!(path_display_name("C:\\dir\\."), "dir");
    assert_eq!(path_display_name("C:\\dir\\.."), "C:\\dir\\..");
    assert_eq!(path_display_name("C:\\"), "C:\\");
    assert_eq!(path_display_name("\\\\server\\share"), "\\\\server\\share");
    assert_eq!(path_display_name("\\\\server\\share\\doc.txt"), "doc.txt");
    assert_eq!(path_display_name("C:relative.txt"), "relative.txt");
    assert_eq!(path_display_name("a/b/c.txt"), "c.txt");
}

#[test]
fn file_hash_ignores_the_order_of_the_paths() {
    let a = process_files(
        vec!["C:\\b.txt".into(), "C:\\a.txt".into(), "D:\\c.txt".into()],
        None,
        &[0, 0, 0],
    );
    let b = process_files(
        vec!["D:\\c.txt".into(), "C:\\b.txt".into(), "C:\\a.txt".into()],
        None,
        &[0, 0, 0],
    );
    assert_eq!(a.content_hash, b.content_hash);
    assert_eq!(a.content_hash, hash_text("C:\\a.txt\0C:\\b.txt\0D:\\c.txt"));
    assert_ne!(a.preview, b.preview);
}

#[test]
fn path_display_names_follow_windows_prefixes() {
    // Verbatim paths: only `\` separates, `.` is a component of its own.
    assert_eq!(path_display_name("\\\\?\\C:\\a\\b.txt"), "b.txt");
    assert_eq!(path_display_name("\\\\?\\C:\\a/b"), "a/b");
    assert_eq!(path_display_name("\\\\?\\C:\\a\\."), "\\\\?\\C:\\a\\.");
    assert_eq!(path_display_name("\\\\?\\UNC\\server\\share\\f.txt"), "f.txt");
    assert_eq!(path_display_name("\\\\?\\UNC\\server\\share"), "\\\\?\\UNC\\server\\share");
    assert_eq!(path_display_name("\\\\?\\Volume{x}\\f.txt"), "f.txt");
    // Device paths and shares.
    assert_eq!(path_display_name("\\\\.\\COM42"), "\\\\.\\COM42");
    assert_eq!(path_display_name("//server/share/x.txt"), "x.txt");
    // A share needs both a server and a share name.
    assert_eq!(path_display_name("\\\\server"), "server");
}
