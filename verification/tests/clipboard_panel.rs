use memory_cleanr::app::clipboard_ops::{
    clipboard_write_for, paste_step, ClipboardWrite, PasteAction, PasteError, PasteStage,
};
use memory_cleanr::app::MemoryCleanerApp;
use memory_cleanr::clipboard::{ClipboardItem, ContentType};
use memory_cleanr::ui::clipboard_panel::{
    clipboard_empty_label, clipboard_status_text, drop_target_for_row, drop_target_row,
    filter_button_active, filter_button_label,
    preview_ordered_count, preview_ordered_items, visible_rows, VisibleRow,
};

fn item(id: i64, pinned: bool) -> ClipboardItem {
    ClipboardItem {
        id,
        content_type: ContentType::Text,
        text_content: Some(format!("t{id}")),
        preview: format!("t{id}"),
        file_paths: None,
        content_hash: String::new(),
        byte_size: 2,
        is_pinned: pinned,
        source_app: None,
        created_at: String::new(),
    }
}

fn app() -> MemoryCleanerApp {
    MemoryCleanerApp {
        clipboard_enabled: true,
        clipboard_max_history: 50,
        settings_expanded: false,
        window_visible: true,
        clipboard_visible: false,
        clipboard_items: vec![item(1, false), item(2, true), item(3, false)],
        clipboard_filter: None,
        clipboard_selected: Some(1),
        clipboard_hovered_id: Some(2),
        clipboard_deleting_id: None,
        clipboard_dragging_id: None,
        clipboard_drop_target_id: None,
        clipboard_shift_anims: vec![1, 2],
        clipboard_shift_tick_gen: u64::MAX,
    }
}

#[test]
fn drag_preview_moves_the_dragged_row() {
    let items = vec![item(10, false), item(20, false), item(30, false), item(40, false)];
    assert_eq!(preview_ordered_items(&items, Some(10), Some(30)), vec![1, 2, 0, 3]);
    assert_eq!(preview_ordered_items(&items, Some(40), Some(20)), vec![0, 3, 1, 2]);
    assert_eq!(preview_ordered_items(&items, Some(10), Some(10)), vec![0, 1, 2, 3]);
    assert_eq!(preview_ordered_items(&items, Some(99), Some(10)), vec![0, 1, 2, 3]);
    assert_eq!(preview_ordered_items(&items, None, Some(10)), vec![0, 1, 2, 3]);
    assert_eq!(preview_ordered_count(&items, Some(10), Some(30)), 4);
}

#[test]
fn panel_commands_update_state() {
    let mut a = app();
    assert_eq!(a.clipboard_query_limit(), 200);
    a.clipboard_max_history = 9000;
    assert_eq!(a.clipboard_query_limit(), 5000);
    let e = a.show_clipboard_window();
    assert!(a.clipboard_visible && e.refresh && e.resize && !e.activate_window);
    assert_eq!(a.unpinned_count(), 2);
    assert!(a.set_clipboard_filter(Some(ContentType::File)));
    assert!(!a.set_clipboard_filter(Some(ContentType::File)));
    assert_eq!(a.begin_clipboard_item_delete(3), Some(2));
    assert_eq!(a.begin_clipboard_item_delete(1), None);
    a.finish_clipboard_item_delete();
    assert_eq!(a.clipboard_shift_tick_gen, 0);
    assert!(a.clipboard_shift_anims.is_empty());
    assert!(!a.move_clipboard_item(1, 1));
    assert!(a.move_clipboard_item(1, 3));
    assert_eq!(a.clear_clipboard_history(), None);
    a.refresh_clipboard_items(Some(vec![item(5, false)]));
    assert_eq!(a.clipboard_items.len(), 1);
    a.refresh_clipboard_items(None);
    assert_eq!(a.clipboard_items.len(), 1);
    assert!(a.handle_clipboard_content());
    let e = a.set_clipboard_visible(false);
    assert!(!a.clipboard_visible && e.resize && !e.save_focus);
}

#[test]
fn clear_drag_preview_resets_the_drag() {
    let mut a = app();
    a.clipboard_dragging_id = Some(1);
    a.clipboard_drop_target_id = Some(3);
    a.clear_clipboard_drag_preview();
    assert_eq!(a.clipboard_dragging_id, None);
    assert_eq!(a.clipboard_drop_target_id, None);
    assert!(a.delete_clipboard_item(2));
    assert_eq!(a.clipboard_hovered_id, None);
}

#[test]
fn dropping_on_another_entry_moves_it() {
    let mut a = app();
    a.clipboard_dragging_id = Some(1);
    a.clipboard_drop_target_id = Some(3);
    assert_eq!(a.drop_clipboard_item(1), Some(3));
    assert_eq!(a.clipboard_dragging_id, None);
    assert_eq!(a.clipboard_drop_target_id, None);
    assert!(a.clipboard_shift_anims.is_empty());
    assert_eq!(a.clipboard_shift_tick_gen, 0);

    let mut b = app();
    b.clipboard_dragging_id = Some(1);
    b.clipboard_drop_target_id = Some(1);
    assert_eq!(b.drop_clipboard_item(1), None);
    assert_eq!(b.clipboard_dragging_id, None);
    assert_eq!(b.clipboard_drop_target_id, None);
    assert_eq!(b.clipboard_shift_anims, vec![1, 2]);
    assert_eq!(b.clipboard_shift_tick_gen, u64::MAX);

    let mut c = app();
    c.clipboard_dragging_id = Some(2);
    assert_eq!(c.drop_clipboard_item(2), None);
    assert_eq!(c.clipboard_dragging_id, None);
}

#[test]
fn visible_rows_follow_the_drag_preview() {
    let mut a = app();
    let rows = visible_rows(&a, 0, 10);
    assert_eq!(
        rows,
        vec![
            VisibleRow { index: 0, item: 0, selected: false, dimmed: false },
            VisibleRow { index: 1, item: 1, selected: true, dimmed: false },
            VisibleRow { index: 2, item: 2, selected: false, dimmed: false },
        ]
    );
    a.clipboard_dragging_id = Some(1);
    a.clipboard_drop_target_id = Some(3);
    let rows = visible_rows(&a, 1, 3);
    assert_eq!(
        rows,
        vec![
            VisibleRow { index: 1, item: 2, selected: true, dimmed: true },
            VisibleRow { index: 2, item: 0, selected: false, dimmed: false },
        ]
    );
    assert!(visible_rows(&a, 3, 8).is_empty());
    assert!(visible_rows(&a, 2, 1).is_empty());
}

#[test]
fn visible_rows_find_the_first_entry_with_an_id() {
    let mut a = app();
    a.clipboard_items = vec![item(7, false), item(7, true)];
    a.clipboard_selected = None;
    let rows = visible_rows(&a, 0, 2);
    assert_eq!(rows[1], VisibleRow { index: 1, item: 0, selected: false, dimmed: false });
}

#[test]
fn paste_content_follows_the_entry_kind() {
    match clipboard_write_for(item(4, false)) {
        Ok(ClipboardWrite::Text(t)) => assert_eq!(t, "t4"),
        _ => panic!("text entry"),
    }
    let mut files = item(5, false);
    files.content_type = ContentType::File;
    files.file_paths = Some(vec!["C:\\a.txt".to_string()]);
    match clipboard_write_for(files.clone()) {
        Ok(ClipboardWrite::Files(p)) => assert_eq!(p, vec!["C:\\a.txt".to_string()]),
        _ => panic!("file entry"),
    }
    files.file_paths = None;
    let err = clipboard_write_for(files).err().unwrap();
    assert_eq!(err, PasteError::MissingFiles);
    assert_eq!(err.message(), "missing file paths");
    let mut text = item(6, false);
    text.text_content = None;
    let err = clipboard_write_for(text).err().unwrap();
    assert_eq!(err, PasteError::MissingText);
    assert_eq!(err.message(), "missing text content");
}

#[test]
fn paste_runs_write_hide_wait_paste_show() {
    let mut stage = PasteStage::Start;
    let mut actions = Vec::new();
    loop {
        let (next, action) = paste_step(stage, true);
        stage = next;
        if action == PasteAction::Stop {
            break;
        }
        actions.push(action);
    }
    assert_eq!(
        actions,
        vec![
            PasteAction::WriteClipboard { monitor_pause_ms: 800 },
            PasteAction::HideWindow,
            PasteAction::Sleep(100),
            PasteAction::PasteIntoTarget,
            PasteAction::ShowAndRefocus,
        ]
    );
    assert_eq!(paste_step(PasteStage::Writing, false), (PasteStage::Finished, PasteAction::Stop));
    assert_eq!(
        paste_step(PasteStage::Pasting, false),
        (PasteStage::Restoring, PasteAction::ShowAndRefocus)
    );
}

#[test]
fn panel_texts() {
    assert_eq!(clipboard_status_text(0), "共 0 条");
    assert_eq!(clipboard_status_text(3), "共 3 条");
    assert_eq!(clipboard_status_text(1250), "共 1250 条");
    assert_eq!(clipboard_empty_label(0), Some("暂无剪贴板记录"));
    assert_eq!(clipboard_empty_label(2), None);
    assert_eq!(filter_button_label(None), "全部");
    assert_eq!(filter_button_label(Some(ContentType::Text)), "文本");
    assert_eq!(filter_button_label(Some(ContentType::File)), "文件");
}

#[test]
fn only_the_active_filter_button_is_outlined() {
    let buttons = [None, Some(ContentType::Text), Some(ContentType::File)];
    for current in buttons {
        let active: Vec<bool> = buttons.iter().map(|b| filter_button_active(current, *b)).collect();
        assert_eq!(active.iter().filter(|a| **a).count(), 1);
        for (b, a) in buttons.iter().zip(active) {
            assert_eq!(a, *b == current);
        }
    }
}

#[test]
fn panel_commands_leave_other_fields_alone() {
    let mut a = app();
    a.clipboard_dragging_id = Some(1);
    a.refresh_clipboard_items(Some(vec![item(9, false)]));
    assert_eq!(a.clipboard_selected, Some(1));
    assert_eq!(a.clipboard_hovered_id, Some(2));
    assert_eq!(a.clipboard_dragging_id, Some(1));
    a.clear_clipboard_drag_preview();
    assert_eq!(a.clipboard_selected, Some(1));
    assert_eq!(a.clipboard_hovered_id, Some(2));
    assert_eq!(a.clipboard_items.len(), 1);
    a.finish_clipboard_item_delete();
    assert_eq!(a.clipboard_items.len(), 1);
    assert_eq!(a.clipboard_selected, Some(1));
}

#[test]
fn drop_target_follows_the_pointer_row() {
    let items = vec![item(10, false), item(20, false), item(30, false)];
    // Row under the pointer, clamped to the last entry.
    assert_eq!(drop_target_for_row(&items, None, 0, false), Some(10));
    assert_eq!(drop_target_for_row(&items, None, 1, false), Some(20));
    assert_eq!(drop_target_for_row(&items, Some(10), 7, false), Some(30));
    // Within the current target's band the target stays.
    assert_eq!(drop_target_for_row(&items, Some(10), 1, true), Some(10));
    // A target no longer listed does not stay.
    assert_eq!(drop_target_for_row(&items, Some(99), 1, true), Some(20));
    // No entries: nothing changes.
    assert_eq!(drop_target_for_row(&[], Some(5), 0, false), Some(5));
    assert_eq!(drop_target_row(&items, Some(30)), Some(2));
    assert_eq!(drop_target_row(&items, Some(99)), None);
    assert_eq!(drop_target_row(&items, None), None);

    let mut a = app();
    a.clipboard_dragging_id = Some(1);
    assert!(a.update_drop_target_from_pointer(2, false));
    assert_eq!(a.clipboard_drop_target_id, Some(3));
    assert!(!a.update_drop_target_from_pointer(9, false));
    assert!(!a.update_drop_target_from_pointer(0, true));
    assert_eq!(a.clipboard_drop_target_id, Some(3));
    assert!(a.update_drop_target_from_pointer(0, false));
    assert_eq!(a.clipboard_drop_target_id, Some(1));
    assert_eq!(a.clipboard_dragging_id, Some(1));
    assert_eq!(a.clipboard_selected, Some(1));
}
