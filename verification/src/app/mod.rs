//! Application state that the clipboard panel works on.
use vstd::prelude::*;

pub mod clipboard_ops;
pub mod pinned_card;

use crate::clipboard::{ClipboardItem, ContentType};

verus! {

/// The clipboard side of the application's state.
pub struct MemoryCleanerApp {
    /// The clipboard history is turned on in the settings.
    pub clipboard_enabled: bool,
    /// The history length chosen in the settings.
    pub clipboard_max_history: u32,
    /// The settings pane is expanded.
    pub settings_expanded: bool,
    /// The main window is shown.
    pub window_visible: bool,
    /// The window shows the clipboard panel.
    pub clipboard_visible: bool,
    /// The entries the panel lists.
    pub clipboard_items: Vec<ClipboardItem>,
    /// The kind of entries the panel lists (`None`: all).
    pub clipboard_filter: Option<ContentType>,
    /// The selected row.
    pub clipboard_selected: Option<usize>,
    pub clipboard_hovered_id: Option<i64>,
    /// The entry whose removal is being animated.
    pub clipboard_deleting_id: Option<i64>,
    pub clipboard_dragging_id: Option<i64>,
    pub clipboard_drop_target_id: Option<i64>,
    /// Ids of the rows that are sliding to a new place.
    pub clipboard_shift_anims: Vec<i64>,
    /// Generation of the row animations; bumped to cancel them.
    pub clipboard_shift_tick_gen: u64,
}

} // verus!
