use memory_cleanr::app::pinned_card::window_title_for_item;
use memory_cleanr::clipboard::{ClipboardItem, ContentType};

fn previewed(preview: &str) -> ClipboardItem {
    ClipboardItem {
        id: 1,
        content_type: ContentType::Text,
        text_content: Some(preview.to_string()),
        preview: preview.to_string(),
        file_paths: None,
        content_hash: String::new(),
        byte_size: preview.len() as i64,
        is_pinned: true,
        source_app: None,
        created_at: String::new(),
    }
}

#[test]
fn pinned_title_is_the_trimmed_first_line() {
    assert_eq!(window_title_for_item(&previewed("  hello world  \nsecond"), "Pinned"), "hello world");
    assert_eq!(window_title_for_item(&previewed("line\r\nnext"), "Pinned"), "line");
    assert_eq!(window_title_for_item(&previewed("single"), "Pinned"), "single");
}

#[test]
fn pinned_title_falls_back_when_blank() {
    assert_eq!(window_title_for_item(&previewed(""), "Pinned"), "Pinned");
    assert_eq!(window_title_for_item(&previewed("   \n text below"), "Pinned"), "Pinned");
}

#[test]
fn pinned_title_is_cut_to_48_characters() {
    let long = "界".repeat(60);
    let title = window_title_for_item(&previewed(&long), "Pinned");
    assert_eq!(title, format!("{}…", "界".repeat(48)));
    let exact = "a".repeat(48);
    assert_eq!(window_title_for_item(&previewed(&exact), "Pinned"), exact);
    // The ellipsis follows the whole preview's length, not the first line's.
    let two_lines = format!("short\n{}", "b".repeat(60));
    assert_eq!(window_title_for_item(&previewed(&two_lines), "Pinned"), "short…");
    let blank_long = format!("   \n{}", "c".repeat(60));
    assert_eq!(window_title_for_item(&previewed(&blank_long), "Pinned"), "…");
}
