//! What the clipboard panel's commands do to the application state. The
//! storage calls, the window resizing and the animations are the caller's;
//! these functions say when they happen.
use vstd::prelude::*;

use super::MemoryCleanerApp;
use crate::clipboard::{ClipboardItem, ContentType};
use crate::ui::clipboard_panel::{drop_target_for_row, drop_target_spec, item_ids};

verus! {

/// Fewest and most entries loaded into the panel.
pub const MIN_LOADED_ITEMS: u32 = 200;

pub const MAX_LOADED_ITEMS: u32 = 5000;

/// `max_history` clamped to `200..=5000`.
pub open spec fn load_limit(max_history: u32) -> u32 {
    if max_history < MIN_LOADED_ITEMS {
        MIN_LOADED_ITEMS
    } else if max_history > MAX_LOADED_ITEMS {
        MAX_LOADED_ITEMS
    } else {
        max_history
    }
}

/// The number of entries loaded is the history length clamped to
/// `200..=5000`: never fewer than 200 nor more than 5000, and the history
/// length itself whenever it lies between.
pub proof fn lemma_load_limit_clamps(max_history: u32)
    ensures
        200 <= load_limit(max_history) <= 5000,
        200 <= max_history <= 5000 ==> load_limit(max_history) == max_history,
        max_history < 200 ==> load_limit(max_history) == 200,
        max_history > 5000 ==> load_limit(max_history) == 5000,
{
}

/// What the caller does after a panel command besides redrawing.
#[derive(Clone, Copy, Debug, PartialEq, Eq, Structural)]
pub struct PanelEffects {
    /// Reload the entries from storage.
    pub refresh: bool,
    /// Bring the main window to the front.
    pub activate_window: bool,
    /// Resize the window to the panel's new height.
    pub resize: bool,
    /// Remember the focused application and our window, for paste.
    pub save_focus: bool,
}

pub open spec fn no_effects() -> PanelEffects {
    PanelEffects { refresh: false, activate_window: false, resize: false, save_focus: false }
}

/// The state apart from the clipboard panel's visibility is unchanged.
pub open spec fn same_but_visibility(a: &MemoryCleanerApp, b: &MemoryCleanerApp) -> bool {
    &&& a.clipboard_enabled == b.clipboard_enabled
    &&& a.clipboard_max_history == b.clipboard_max_history
    &&& a.settings_expanded == b.settings_expanded
    &&& a.window_visible == b.window_visible
    &&& a.clipboard_items@ == b.clipboard_items@
    &&& a.clipboard_filter == b.clipboard_filter
    &&& a.clipboard_selected == b.clipboard_selected
    &&& a.clipboard_hovered_id == b.clipboard_hovered_id
    &&& a.clipboard_deleting_id == b.clipboard_deleting_id
    &&& a.clipboard_dragging_id == b.clipboard_dragging_id
    &&& a.clipboard_drop_target_id == b.clipboard_drop_target_id
    &&& a.clipboard_shift_anims@ == b.clipboard_shift_anims@
    &&& a.clipboard_shift_tick_gen == b.clipboard_shift_tick_gen
}

/// Which parts of the panel state a command may change.
pub struct FieldSet {
    pub items: bool,
    pub filter: bool,
    pub selection: bool,
    pub hover: bool,
    pub deletion: bool,
    /// The dragged entry and the drop target.
    pub drag: bool,
    /// The row animations and their generation.
    pub animation: bool,
}

/// No part of the panel state.
pub open spec fn no_fields() -> FieldSet {
    FieldSet {
        items: false,
        filter: false,
        selection: false,
        hover: false,
        deletion: false,
        drag: false,
        animation: false,
    }
}

/// `b` is `a` with at most the parts in `f` changed (settings and the
/// panel's visibility always kept).
pub open spec fn only_changes(b: &MemoryCleanerApp, a: &MemoryCleanerApp, f: FieldSet) -> bool {
    &&& a.clipboard_enabled == b.clipboard_enabled
    &&& a.clipboard_max_history == b.clipboard_max_history
    &&& a.settings_expanded == b.settings_expanded
    &&& a.window_visible == b.window_visible
    &&& a.clipboard_visible == b.clipboard_visible
    &&& (f.items || a.clipboard_items@ == b.clipboard_items@)
    &&& (f.filter || a.clipboard_filter == b.clipboard_filter)
    &&& (f.selection || a.clipboard_selected == b.clipboard_selected)
    &&& (f.hover || a.clipboard_hovered_id == b.clipboard_hovered_id)
    &&& (f.deletion || a.clipboard_deleting_id == b.clipboard_deleting_id)
    &&& (f.drag || (a.clipboard_dragging_id == b.clipboard_dragging_id
        && a.clipboard_drop_target_id == b.clipboard_drop_target_id))
    &&& (f.animation || (a.clipboard_shift_anims@ == b.clipboard_shift_anims@
        && a.clipboard_shift_tick_gen == b.clipboard_shift_tick_gen))
}

impl MemoryCleanerApp {
    /// Show or toggle the clipboard history panel (tray / no direct window
    /// handle): with the window shown the panel toggles; a hidden window is
    /// brought up with the panel.
    pub fn show_clipboard_window(&mut self) -> (r: PanelEffects)
        ensures
            same_but_visibility(&*final(self), &*old(self)),
            !old(self).clipboard_enabled ==> final(self).clipboard_visible == old(self).clipboard_visible
                && r == no_effects(),
            old(self).clipboard_enabled && old(self).window_visible ==> final(self).clipboard_visible
                == !old(self).clipboard_visible && !r.activate_window,
            old(self).clipboard_enabled && !old(self).window_visible ==> final(self).clipboard_visible
                && r.activate_window,
            old(self).clipboard_enabled ==> r.resize && r.refresh == final(self).clipboard_visible
                && !r.save_focus,
    {
        if !self.clipboard_enabled {
            return PanelEffects { refresh: false, activate_window: false, resize: false, save_focus: false };
        }
        let mut activate = false;
        if self.window_visible {
            self.clipboard_visible = !self.clipboard_visible;
        } else {
            self.clipboard_visible = true;
            activate = true;
        }
        PanelEffects {
            refresh: self.clipboard_visible,
            activate_window: activate,
            resize: true,
            save_focus: false,
        }
    }

    /// Enter or leave clipboard mode from the title bar.
    pub fn set_clipboard_visible(&mut self, visible: bool) -> (r: PanelEffects)
        ensures
            same_but_visibility(&*final(self), &*old(self)),
            (visible && !old(self).clipboard_enabled) || old(self).clipboard_visible == visible
                ==> final(self).clipboard_visible == old(self).clipboard_visible && r == no_effects(),
            !((visible && !old(self).clipboard_enabled) || old(self).clipboard_visible == visible)
                ==> final(self).clipboard_visible == visible && r == (PanelEffects {
                refresh: visible,
                activate_window: false,
                resize: true,
                save_focus: visible,
            }),
    {
        if visible && !self.clipboard_enabled {
            return PanelEffects { refresh: false, activate_window: false, resize: false, save_focus: false };
        }
        if self.clipboard_visible == visible {
            return PanelEffects { refresh: false, activate_window: false, resize: false, save_focus: false };
        }
        self.clipboard_visible = visible;
        PanelEffects { refresh: visible, activate_window: false, resize: true, save_focus: visible }
    }

    /// How many entries to load from storage.
    pub fn clipboard_query_limit(&self) -> (r: usize)
        ensures
            r == load_limit(self.clipboard_max_history),
    {
        let m = self.clipboard_max_history;
        let l = if m < MIN_LOADED_ITEMS {
            MIN_LOADED_ITEMS
        } else if m > MAX_LOADED_ITEMS {
            MAX_LOADED_ITEMS
        } else {
            m
        };
        l as usize
    }

    /// Take the result of the storage query: the listed entries are replaced
    /// when it succeeded, kept when it failed.
    pub fn refresh_clipboard_items(&mut self, queried: Option<Vec<ClipboardItem>>)
        ensures
            queried matches Some(items) ==> final(self).clipboard_items@ == items@,
            queried is None ==> final(self).clipboard_items@ == old(self).clipboard_items@,
            only_changes(&*final(self), &*old(self), (FieldSet { items: true, ..no_fields() })),
    {
        match queried {
            Some(items) => self.clipboard_items = items,
            None => {},
        }
    }

    /// Change the kind of entries listed; `true` when it changed (then the
    /// caller reloads and animates).
    pub fn set_clipboard_filter(&mut self, filter: Option<ContentType>) -> (r: bool)
        ensures
            r == (old(self).clipboard_filter != filter),
            final(self).clipboard_filter == filter,
            only_changes(&*final(self), &*old(self), (FieldSet { filter: true, ..no_fields() })),
    {
        if self.clipboard_filter == filter {
            return false;
        }
        self.clipboard_filter = filter;
        true
    }

    /// Number of entries a clear would remove (pinned entries stay); no
    /// confirmation is asked when it is zero.
    pub fn unpinned_count(&self) -> (r: usize)
        ensures
            r == unpinned(self.clipboard_items@),
    {
        let mut count: usize = 0;
        let mut i: usize = 0;
        while i < self.clipboard_items.len()
            invariant
                i <= self.clipboard_items@.len(),
                count == unpinned(self.clipboard_items@.take(i as int)),
                count <= i,
            decreases self.clipboard_items@.len() - i,
        {
            proof {
                assert(self.clipboard_items@.take(i + 1).drop_last() =~= self.clipboard_items@.take(i as int));
            }
            if !self.clipboard_items[i].is_pinned {
                count += 1;
            }
            i += 1;
        }
        assert(self.clipboard_items@.take(self.clipboard_items@.len() as int) =~= self.clipboard_items@);
        count
    }

    /// After the history was cleared: the hovered entry (to fade out) is
    /// forgotten and nothing stays selected.
    pub fn clear_clipboard_history(&mut self) -> (r: Option<i64>)
        ensures
            r == old(self).clipboard_hovered_id,
            final(self).clipboard_hovered_id is None,
            final(self).clipboard_selected is None,
            only_changes(
                &*final(self),
                &*old(self),
                (FieldSet { hover: true, selection: true, ..no_fields() }),
            ),
    {
        let hovered = self.clipboard_hovered_id;
        self.clipboard_hovered_id = None;
        self.clipboard_selected = None;
        hovered
    }

    /// Start deleting an entry with an animation: refused while another
    /// deletion or a drag runs, or when the entry is not listed; else its row
    /// index, for the collapse animation.
    pub fn begin_clipboard_item_delete(&mut self, id: i64) -> (r: Option<usize>)
        ensures
            (old(self).clipboard_deleting_id is Some || old(self).clipboard_dragging_id is Some)
                ==> r is None && final(self).clipboard_deleting_id == old(self).clipboard_deleting_id
                && final(self).clipboard_hovered_id == old(self).clipboard_hovered_id,
            r matches Some(i) ==> i < old(self).clipboard_items@.len()
                && old(self).clipboard_items@[i as int].id == id && (forall|j: int|
                0 <= j < i ==> old(self).clipboard_items@[j].id != id)
                && final(self).clipboard_deleting_id == Some(id)
                && final(self).clipboard_hovered_id is None,
            r is None && old(self).clipboard_deleting_id is None && old(self).clipboard_dragging_id
                is None ==> (forall|j: int| 0 <= j < old(self).clipboard_items@.len() ==> old(self).clipboard_items@[j].id != id)
                && final(self).clipboard_deleting_id is None,
            r is None ==> *final(self) == *old(self),
            only_changes(
                &*final(self),
                &*old(self),
                (FieldSet { deletion: true, hover: true, ..no_fields() }),
            ),
    {
        if self.clipboard_deleting_id.is_some() || self.clipboard_dragging_id.is_some() {
            return None;
        }
        match item_index(self.clipboard_items.as_slice(), id) {
            Some(i) => {
                self.clipboard_deleting_id = Some(id);
                self.clipboard_hovered_id = None;
                Some(i)
            },
            None => None,
        }
    }

    /// When the collapse animation is over: the deletion mark and the row
    /// animations are dropped; the caller then deletes the entry.
    pub fn finish_clipboard_item_delete(&mut self)
        ensures
            final(self).clipboard_deleting_id is None,
            final(self).clipboard_shift_anims@.len() == 0,
            final(self).clipboard_shift_tick_gen == (if old(self).clipboard_shift_tick_gen == u64::MAX {
                0
            } else {
                old(self).clipboard_shift_tick_gen + 1
            }),
            only_changes(
                &*final(self),
                &*old(self),
                (FieldSet { deletion: true, animation: true, ..no_fields() }),
            ),
    {
        self.clipboard_deleting_id = None;
        self.clipboard_shift_anims = Vec::new();
        self.clipboard_shift_tick_gen = self.clipboard_shift_tick_gen.wrapping_add(1);
    }

    /// After an entry was deleted from storage: when it was hovered, the hover
    /// is dropped and `true` tells the caller to fade it out.
    pub fn delete_clipboard_item(&mut self, id: i64) -> (r: bool)
        ensures
            r == (old(self).clipboard_hovered_id == Some(id)),
            r ==> final(self).clipboard_hovered_id is None,
            !r ==> *final(self) == *old(self),
            only_changes(&*final(self), &*old(self), (FieldSet { hover: true, ..no_fields() })),
    {
        if self.clipboard_hovered_id == Some(id) {
            self.clipboard_hovered_id = None;
            true
        } else {
            false
        }
    }

    /// Move an entry to another's place: nothing for the same entry; else the
    /// drag preview is cleared and `true` tells the caller to reorder storage.
    pub fn move_clipboard_item(&mut self, from_id: i64, to_id: i64) -> (r: bool)
        ensures
            r == (from_id != to_id),
            r ==> final(self).clipboard_dragging_id is None && final(self).clipboard_drop_target_id is None
                && final(self).clipboard_shift_anims@.len() == 0,
            !r ==> *final(self) == *old(self),
            only_changes(
                &*final(self),
                &*old(self),
                (FieldSet { drag: true, animation: true, ..no_fields() }),
            ),
    {
        if from_id == to_id {
            return false;
        }
        self.clear_clipboard_drag_preview();
        true
    }

    /// A card was dropped on the list: the drag ends, and when it hovered
    /// over another entry the result names that entry, to whose place the
    /// caller moves the dragged one in storage.
    pub fn drop_clipboard_item(&mut self, dragged_id: i64) -> (r: Option<i64>)
        ensures
            r == (match old(self).clipboard_drop_target_id {
                Some(t) => if t != dragged_id {
                    Some(t)
                } else {
                    None
                },
                None => None,
            }),
            final(self).clipboard_dragging_id is None,
            final(self).clipboard_drop_target_id is None,
            only_changes(
                &*final(self),
                &*old(self),
                (FieldSet { drag: true, animation: true, ..no_fields() }),
            ),
            r is Some ==> final(self).clipboard_shift_anims@.len() == 0,
            r is None ==> final(self).clipboard_shift_anims@ == old(self).clipboard_shift_anims@
                && final(self).clipboard_shift_tick_gen == old(self).clipboard_shift_tick_gen,
    {
        let target = self.clipboard_drop_target_id;
        self.clipboard_drop_target_id = None;
        self.clipboard_dragging_id = None;
        match target {
            Some(to) => {
                if self.move_clipboard_item(dragged_id, to) {
                    Some(to)
                } else {
                    None
                }
            },
            None => None,
        }
    }

    /// The pointer moved over content row `row` during a drag (see
    /// `drop_target_spec`; `in_current_band` says whether it is still within
    /// the current target's band): the drop target is updated, and `true`
    /// tells the caller to redraw because it changed.
    pub fn update_drop_target_from_pointer(&mut self, row: u64, in_current_band: bool) -> (r: bool)
        ensures
            final(self).clipboard_drop_target_id == drop_target_spec(
                item_ids(old(self).clipboard_items@),
                old(self).clipboard_drop_target_id,
                row,
                in_current_band,
            ),
            r == (final(self).clipboard_drop_target_id != old(self).clipboard_drop_target_id),
            final(self).clipboard_dragging_id == old(self).clipboard_dragging_id,
            only_changes(&*final(self), &*old(self), (FieldSet { drag: true, ..no_fields() })),
    {
        let target = drop_target_for_row(
            self.clipboard_items.as_slice(),
            self.clipboard_drop_target_id,
            row,
            in_current_band,
        );
        let changed = match (target, self.clipboard_drop_target_id) {
            (Some(a), Some(b)) => a != b,
            (None, None) => false,
            _ => true,
        };
        self.clipboard_drop_target_id = target;
        changed
    }

    /// Forget the drag in progress and cancel the row animations.
    pub fn clear_clipboard_drag_preview(&mut self)
        ensures
            final(self).clipboard_dragging_id is None,
            final(self).clipboard_drop_target_id is None,
            final(self).clipboard_shift_anims@.len() == 0,
            final(self).clipboard_shift_tick_gen == (if old(self).clipboard_shift_tick_gen == u64::MAX {
                0
            } else {
                old(self).clipboard_shift_tick_gen + 1
            }),
            only_changes(
                &*final(self),
                &*old(self),
                (FieldSet { drag: true, animation: true, ..no_fields() }),
            ),
    {
        self.clipboard_dragging_id = None;
        self.clipboard_drop_target_id = None;
        self.clipboard_shift_anims = Vec::new();
        self.clipboard_shift_tick_gen = self.clipboard_shift_tick_gen.wrapping_add(1);
    }

    /// After new content was stored: the list is reloaded only while the panel shows.
    pub fn handle_clipboard_content(&self) -> (r: bool)
        ensures
            r == self.clipboard_visible,
    {
        self.clipboard_visible
    }
}

/// Time the clipboard monitor is paused while our own write lands, in ms.
pub const PASTE_MONITOR_PAUSE_MS: u64 = 800;

/// Time between hiding the window and pasting into the application below, in ms.
pub const PASTE_SETTLE_MS: u64 = 100;

/// What a paste puts on the system clipboard.
#[derive(Clone, Debug)]
pub enum ClipboardWrite {
    Text(String),
    Files(Vec<String>),
}

/// Why an entry cannot be pasted.
#[derive(Clone, Copy, Debug, PartialEq, Eq, Structural)]
pub enum PasteError {
    /// A text entry without its text.
    MissingText,
    /// A file entry without its paths.
    MissingFiles,
}

impl PasteError {
    pub fn message(&self) -> (r: &'static str)
        ensures
            *self == PasteError::MissingText ==> r@ == "missing text content"@,
            *self == PasteError::MissingFiles ==> r@ == "missing file paths"@,
    {
        match self {
            PasteError::MissingText => "missing text content",
            PasteError::MissingFiles => "missing file paths",
        }
    }
}

/// Where a paste stands: the step last asked of the caller.
#[derive(Clone, Copy, Debug, PartialEq, Eq, Structural)]
pub enum PasteStage {
    Start,
    Writing,
    Hiding,
    Settling,
    Pasting,
    Restoring,
    Finished,
}

/// The next thing the caller does for a paste.
#[derive(Clone, Copy, Debug, PartialEq, Eq, Structural)]
pub enum PasteAction {
    /// Pause the clipboard monitor for the given time and write the entry to the clipboard.
    WriteClipboard { monitor_pause_ms: u64 },
    /// Hide our window (remembering it for the refocus).
    HideWindow,
    /// Wait the given time.
    Sleep(u64),
    /// Send the paste keystroke to the application that had the focus.
    PasteIntoTarget,
    /// Show our window again without activating it, then take the focus back.
    ShowAndRefocus,
    /// Nothing more to do.
    Stop,
}

/// Order of the stages, for progress.
pub open spec fn paste_rank(s: PasteStage) -> nat {
    match s {
        PasteStage::Start => 0,
        PasteStage::Writing => 1,
        PasteStage::Hiding => 2,
        PasteStage::Settling => 3,
        PasteStage::Pasting => 4,
        PasteStage::Restoring => 5,
        PasteStage::Finished => 6,
    }
}

/// The content to write for a stored entry: its text or its file paths,
/// as its kind says.
pub fn clipboard_write_for(item: ClipboardItem) -> (r: Result<ClipboardWrite, PasteError>)
    ensures
        item.content_type == ContentType::Text ==> match item.text_content {
            Some(t) => r == Ok::<ClipboardWrite, PasteError>(ClipboardWrite::Text(t)),
            None => r == Err::<ClipboardWrite, PasteError>(PasteError::MissingText),
        },
        item.content_type == ContentType::File ==> match item.file_paths {
            Some(p) => r == Ok::<ClipboardWrite, PasteError>(ClipboardWrite::Files(p)),
            None => r == Err::<ClipboardWrite, PasteError>(PasteError::MissingFiles),
        },
{
    match item.content_type {
        ContentType::Text => match item.text_content {
            Some(t) => Ok(ClipboardWrite::Text(t)),
            None => Err(PasteError::MissingText),
        },
        ContentType::File => match item.file_paths {
            Some(p) => Ok(ClipboardWrite::Files(p)),
            None => Err(PasteError::MissingFiles),
        },
    }
}

/// One step of pasting an entry: write it to the clipboard (the monitor
/// paused), and only if that worked hide the window, wait, paste into the
/// application below and show the window again. `last_ok` is how the step
/// just asked of the caller went (write or paste); a failed paste still
/// brings the window back.
pub open spec fn paste_next(stage: PasteStage, last_ok: bool) -> (PasteStage, PasteAction) {
    match stage {
        PasteStage::Start => (
            PasteStage::Writing,
            PasteAction::WriteClipboard { monitor_pause_ms: PASTE_MONITOR_PAUSE_MS },
        ),
        PasteStage::Writing => if last_ok {
            (PasteStage::Hiding, PasteAction::HideWindow)
        } else {
            (PasteStage::Finished, PasteAction::Stop)
        },
        PasteStage::Hiding => (PasteStage::Settling, PasteAction::Sleep(PASTE_SETTLE_MS)),
        PasteStage::Settling => (PasteStage::Pasting, PasteAction::PasteIntoTarget),
        PasteStage::Pasting => (PasteStage::Restoring, PasteAction::ShowAndRefocus),
        PasteStage::Restoring => (PasteStage::Finished, PasteAction::Stop),
        PasteStage::Finished => (PasteStage::Finished, PasteAction::Stop),
    }
}

pub fn paste_step(stage: PasteStage, last_ok: bool) -> (r: (PasteStage, PasteAction))
    ensures
        r == paste_next(stage, last_ok),
{
    match stage {
        PasteStage::Start => (
            PasteStage::Writing,
            PasteAction::WriteClipboard { monitor_pause_ms: PASTE_MONITOR_PAUSE_MS },
        ),
        PasteStage::Writing => if last_ok {
            (PasteStage::Hiding, PasteAction::HideWindow)
        } else {
            (PasteStage::Finished, PasteAction::Stop)
        },
        PasteStage::Hiding => (PasteStage::Settling, PasteAction::Sleep(PASTE_SETTLE_MS)),
        PasteStage::Settling => (PasteStage::Pasting, PasteAction::PasteIntoTarget),
        PasteStage::Pasting => (PasteStage::Restoring, PasteAction::ShowAndRefocus),
        PasteStage::Restoring => (PasteStage::Finished, PasteAction::Stop),
        PasteStage::Finished => (PasteStage::Finished, PasteAction::Stop),
    }
}

/// A paste always moves forward, so it ends: every step before the end
/// goes to a later stage, and the end stays put.
pub proof fn lemma_paste_progress(stage: PasteStage, last_ok: bool)
    ensures
        stage != PasteStage::Finished ==> paste_rank(paste_next(stage, last_ok).0) > paste_rank(stage),
        paste_next(stage, last_ok).0 == PasteStage::Finished <==> paste_next(stage, last_ok).1 == PasteAction::Stop,
{
}

/// A hidden window is always shown again: whatever the steps after hiding
/// report, the third one restores the window.
pub proof fn lemma_hidden_window_restored(ok1: bool, ok2: bool, ok3: bool)
    ensures
        ({
            let (s1, a1) = paste_next(PasteStage::Hiding, ok1);
            let (s2, a2) = paste_next(s1, ok2);
            let (s3, a3) = paste_next(s2, ok3);
            a2 == PasteAction::PasteIntoTarget && a3 == PasteAction::ShowAndRefocus
        }),
{
}

/// A failed write leaves the window alone: the paste stops before hiding it.
pub proof fn lemma_failed_write_keeps_window(ok: bool)
    ensures
        !ok ==> paste_next(PasteStage::Writing, ok) == (PasteStage::Finished, PasteAction::Stop),
        ok ==> paste_next(PasteStage::Writing, ok).1 == PasteAction::HideWindow,
{
}

/// Index of the first entry with this id.
fn item_index(items: &[ClipboardItem], id: i64) -> (r: Option<usize>)
    ensures
        r matches Some(i) ==> i < items@.len() && items@[i as int].id == id && forall|j: int|
            0 <= j < i ==> items@[j].id != id,
        r is None ==> forall|j: int| 0 <= j < items@.len() ==> items@[j].id != id,
{
    let mut i: usize = 0;
    while i < items.len()
        invariant
            i <= items@.len(),
            forall|j: int| 0 <= j < i ==> items@[j].id != id,
        decreases items@.len() - i,
    {
        if items[i].id == id {
            return Some(i);
        }
        i += 1;
    }
    None
}

/// Number of entries that are not pinned.
pub open spec fn unpinned(items: Seq<ClipboardItem>) -> nat
    decreases items.len(),
{
    if items.len() == 0 {
        0
    } else {
        unpinned(items.drop_last()) + if items.last().is_pinned {
            0nat
        } else {
            1nat
        }
    }
}

} // verus!
