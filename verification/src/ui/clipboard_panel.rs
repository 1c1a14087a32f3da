//! Ordering of the clipboard panel's rows while a card is dragged.
use vstd::prelude::*;

use crate::app::MemoryCleanerApp;
use crate::clipboard::{ClipboardItem, ContentType};
use crate::text::{decimal, decimal_string};

verus! {

/// `arrayMove`: the element at `from` taken out and put back at `to`.
pub open spec fn array_move(s: Seq<usize>, from: int, to: int) -> Seq<usize> {
    s.remove(from).insert(to, s[from])
}

/// The identity order of `n` rows.
pub open spec fn identity_order(n: nat) -> Seq<usize> {
    Seq::new(n, |i: int| i as usize)
}

/// A position found for an id lies within the list and holds that id.
pub proof fn lemma_position_of(ids: Seq<i64>, id: i64)
    ensures
        position_of(ids, id) matches Some(k) ==> 0 <= k < ids.len() && ids[k] == id,
{
    if exists|i: int| 0 <= i < ids.len() && ids[i] == id {
        let i = choose|i: int| 0 <= i < ids.len() && ids[i] == id;
        lemma_first_occurrence(ids, id, i);
    }
}

proof fn lemma_first_occurrence(ids: Seq<i64>, id: i64, i: int)
    requires
        0 <= i < ids.len(),
        ids[i] == id,
    ensures
        exists|k: int| 0 <= k < ids.len() && ids[k] == id && forall|j: int| 0 <= j < k ==> ids[j] != id,
    decreases i,
{
    if exists|j: int| 0 <= j < i && ids[j] == id {
        let j = choose|j: int| 0 <= j < i && ids[j] == id;
        lemma_first_occurrence(ids, id, j);
    } else {
        assert(forall|j: int| 0 <= j < i ==> ids[j] != id);
    }
}

/// Position of the first item with this id.
pub open spec fn position_of(ids: Seq<i64>, id: i64) -> Option<int> {
    if exists|i: int| 0 <= i < ids.len() && ids[i] == id {
        Some(choose|i: int| 0 <= i < ids.len() && ids[i] == id && forall|j: int| 0 <= j < i ==> ids[j] != id)
    } else {
        None
    }
}

pub open spec fn item_ids(items: Seq<ClipboardItem>) -> Seq<i64> {
    items.map_values(|it: ClipboardItem| it.id)
}

/// The display order of the rows (positions into `items`) while `dragging_id`
/// hovers over `drop_target_id`: the dragged row moved to the target's place;
/// the stored order when either is missing or they are the same.
pub open spec fn preview_order(ids: Seq<i64>, dragging_id: Option<i64>, drop_target_id: Option<i64>) -> Seq<usize> {
    let n = ids.len();
    match (dragging_id, drop_target_id) {
        (Some(d), Some(t)) => if d == t {
            identity_order(n)
        } else {
            match (position_of(ids, d), position_of(ids, t)) {
                (Some(from), Some(to)) => array_move(identity_order(n), from, to),
                _ => identity_order(n),
            }
        },
        _ => identity_order(n),
    }
}

fn find_id(items: &[ClipboardItem], id: i64) -> (r: Option<usize>)
    ensures
        match r {
            Some(i) => position_of(item_ids(items@), id) == Some(i as int) && i < items@.len(),
            None => position_of(item_ids(items@), id) is None,
        },
{
    let ghost ids = item_ids(items@);
    let mut i: usize = 0;
    while i < items.len()
        invariant
            i <= items@.len(),
            ids == item_ids(items@),
            forall|j: int| 0 <= j < i ==> ids[j] != id,
        decreases items@.len() - i,
    {
        if items[i].id == id {
            proof {
                assert(ids[i as int] == id);
                let k = choose|k: int| 0 <= k < ids.len() && ids[k] == id && forall|j: int| 0 <= j < k ==> ids[j] != id;
                if k < i {
                    assert(ids[k] != id);
                }
                if k > i {
                    assert(ids[i as int] != id);
                }
            }
            return Some(i);
        }
        i += 1;
    }
    None
}

/// Like `@dnd-kit` `arrayMove`: the rows in display order, as positions into
/// `items`, with the dragged item moved to the drop target's index.
pub fn preview_ordered_items(items: &[ClipboardItem], dragging_id: Option<i64>, drop_target_id: Option<i64>) -> (r: Vec<usize>)
    ensures
        r@ == preview_order(item_ids(items@), dragging_id, drop_target_id),
{
    let n = items.len();
    let mut order: Vec<usize> = Vec::new();
    let mut i: usize = 0;
    while i < n
        invariant
            i <= n == items@.len(),
            order@ == identity_order(i as nat),
        decreases n - i,
    {
        order.push(i);
        i += 1;
        assert(order@ =~= identity_order(i as nat));
    }
    let ghost ids = item_ids(items@);
    assert(ids.len() == n);
    match (dragging_id, drop_target_id) {
        (Some(d), Some(t)) => {
            if d == t {
                return order;
            }
            let from = find_id(items, d);
            let to = find_id(items, t);
            match (from, to) {
                (Some(from), Some(to)) => {
                    let ghost before = order@;
                    let moved = order.remove(from);
                    order.insert(to, moved);
                    proof {
                        assert(order@ =~= array_move(before, from as int, to as int));
                    }
                    order
                },
                _ => order,
            }
        },
        _ => order,
    }
}

/// Number of rows shown while dragging.
pub fn preview_ordered_count(items: &[ClipboardItem], dragging_id: Option<i64>, drop_target_id: Option<i64>) -> (r: usize)
    ensures
        r == preview_order(item_ids(items@), dragging_id, drop_target_id).len(),
{
    preview_ordered_items(items, dragging_id, drop_target_id).len()
}

/// While dragging, every row is shown exactly once: the display order is a
/// permutation of the stored order.
pub proof fn lemma_preview_is_permutation(ids: Seq<i64>, dragging_id: Option<i64>, drop_target_id: Option<i64>)
    ensures
        preview_order(ids, dragging_id, drop_target_id).to_multiset() == identity_order(ids.len()).to_multiset(),
        preview_order(ids, dragging_id, drop_target_id).len() == ids.len(),
{
    broadcast use vstd::seq_lib::group_to_multiset_ensures;
    broadcast use vstd::multiset::group_multiset_axioms;

    let s = identity_order(ids.len());
    match (dragging_id, drop_target_id) {
        (Some(d), Some(t)) => {
            if d != t {
                match (position_of(ids, d), position_of(ids, t)) {
                    (Some(from), Some(to)) => {
                        lemma_position_of(ids, d);
                        lemma_position_of(ids, t);
                        let r = s.remove(from);
                        s.remove_ensures(from);
                        r.insert_ensures(to, s[from]);
                        assert(s.to_multiset().count(s[from]) > 0);
                        assert(s.to_multiset().remove(s[from]).insert(s[from]) =~= s.to_multiset());
                    },
                    _ => {},
                }
            }
        },
        _ => {},
    }
}

proof fn lemma_array_move_bounded(s: Seq<usize>, from: int, to: int, n: nat)
    requires
        0 <= from < s.len(),
        0 <= to < s.len(),
        forall|k: int| 0 <= k < s.len() ==> (#[trigger] s[k]) < n,
    ensures
        array_move(s, from, to).len() == s.len(),
        forall|k: int| 0 <= k < s.len() ==> (#[trigger] array_move(s, from, to)[k]) < n,
{
    let r = s.remove(from);
    s.remove_ensures(from);
    r.insert_ensures(to, s[from]);
    let o = r.insert(to, s[from]);
    assert forall|k: int| 0 <= k < s.len() implies #[trigger] o[k] < n by {
        if k < to {
            assert(o[k] == r[k]);
            if k < from {
                assert(r[k] == s[k]);
            } else {
                assert(r[k] == s[k + 1]);
            }
        } else if k > to {
            assert(o[k] == r[k - 1]);
            if k - 1 < from {
                assert(r[k - 1] == s[k - 1]);
            } else {
                assert(r[k - 1] == s[k]);
            }
        }
    }
}

/// Every row of the display order names an entry of the list.
pub proof fn lemma_preview_in_bounds(ids: Seq<i64>, dragging_id: Option<i64>, drop_target_id: Option<i64>)
    ensures
        preview_order(ids, dragging_id, drop_target_id).len() == ids.len(),
        forall|k: int|
            0 <= k < ids.len() ==> (#[trigger] preview_order(ids, dragging_id, drop_target_id)[k]) < ids.len(),
{
    let s = identity_order(ids.len());
    assert forall|k: int| 0 <= k < s.len() implies (#[trigger] s[k]) < ids.len() by {}
    match (dragging_id, drop_target_id) {
        (Some(d), Some(t)) => {
            if d != t {
                match (position_of(ids, d), position_of(ids, t)) {
                    (Some(from), Some(to)) => {
                        lemma_position_of(ids, d);
                        lemma_position_of(ids, t);
                        lemma_array_move_bounded(s, from, to, ids.len());
                    },
                    _ => {},
                }
            }
        },
        _ => {},
    }
}

/// A row the virtual list draws.
#[derive(Clone, Copy, Debug, PartialEq, Eq, Structural)]
pub struct VisibleRow {
    /// Its place in display order.
    pub index: usize,
    /// Position in the list of the entry drawn there.
    pub item: usize,
    /// The row is the selected one.
    pub selected: bool,
    /// Drawn faded: a card is dragged and this is another entry.
    pub dimmed: bool,
}

/// The row drawn at display place `idx`: the first entry with the id found
/// there, selected when `idx` is the selected place, faded while another
/// entry is dragged.
#[verifier::opaque]
pub open spec fn row_at(
    ids: Seq<i64>,
    order: Seq<usize>,
    selected: Option<usize>,
    dragging_id: Option<i64>,
    idx: int,
) -> VisibleRow {
    let id = ids[order[idx] as int];
    VisibleRow {
        index: idx as usize,
        item: position_of(ids, id).unwrap() as usize,
        selected: selected == Some(idx as usize),
        dimmed: dragging_id is Some && dragging_id != Some(id),
    }
}

/// The rows drawn for the display places `start..end` that exist.
pub open spec fn visible_rows_spec(
    ids: Seq<i64>,
    dragging_id: Option<i64>,
    drop_target_id: Option<i64>,
    selected: Option<usize>,
    start: int,
    end: int,
) -> Seq<VisibleRow> {
    let order = preview_order(ids, dragging_id, drop_target_id);
    let hi = if end < order.len() {
        end
    } else {
        order.len() as int
    };
    if start >= hi {
        seq![]
    } else {
        Seq::new((hi - start) as nat, |k: int| row_at(ids, order, selected, dragging_id, start + k))
    }
}

fn row_for(
    items: &[ClipboardItem],
    order: &Vec<usize>,
    selected: Option<usize>,
    dragging_id: Option<i64>,
    idx: usize,
) -> (r: VisibleRow)
    requires
        idx < order@.len(),
        forall|k: int| 0 <= k < order@.len() ==> (#[trigger] order@[k]) < items@.len(),
    ensures
        r == row_at(item_ids(items@), order@, selected, dragging_id, idx as int),
{
    let ghost ids = item_ids(items@);
    reveal(row_at);
    let pos = order[idx];
    assert(order@[idx as int] < items@.len());
    let id = items[pos].id;
    assert(ids[pos as int] == id);
    let found = find_id(items, id);
    let item = match found {
        Some(i) => i,
        None => {
            proof {
                assert(exists|i: int| 0 <= i < ids.len() && ids[i] == id);
            }
            pos
        },
    };
    let is_selected = match selected {
        Some(s) => s == idx,
        None => false,
    };
    let dimmed = match dragging_id {
        Some(d) => d != id,
        None => false,
    };
    VisibleRow { index: idx, item, selected: is_selected, dimmed }
}

/// The rows the virtual list draws for the display places `start..end`.
pub fn visible_rows(app: &MemoryCleanerApp, start: usize, end: usize) -> (r: Vec<VisibleRow>)
    ensures
        r@ == visible_rows_spec(
            item_ids(app.clipboard_items@),
            app.clipboard_dragging_id,
            app.clipboard_drop_target_id,
            app.clipboard_selected,
            start as int,
            end as int,
        ),
{
    let items = app.clipboard_items.as_slice();
    let ghost ids = item_ids(items@);
    let order = preview_ordered_items(items, app.clipboard_dragging_id, app.clipboard_drop_target_id);
    proof {
        lemma_preview_in_bounds(ids, app.clipboard_dragging_id, app.clipboard_drop_target_id);
    }
    let ghost po = order@;
    let hi = if end < order.len() {
        end
    } else {
        order.len()
    };
    let selected = app.clipboard_selected;
    let dragging = app.clipboard_dragging_id;
    let mut rows: Vec<VisibleRow> = Vec::new();
    let mut idx: usize = start;
    while idx < hi
        invariant
            order@ == po,
            forall|k: int| 0 <= k < order@.len() ==> (#[trigger] order@[k]) < items@.len(),
            hi <= order@.len(),
            start <= idx,
            idx <= hi || idx == start,
            rows@.len() == idx - start,
            forall|k: int|
                0 <= k < rows@.len() ==> #[trigger] rows@[k] == row_at(
                    item_ids(items@),
                    po,
                    selected,
                    dragging,
                    start + k,
                ),
        decreases hi - idx,
    {
        let row = row_for(items, &order, selected, dragging, idx);
        rows.push(row);
        idx += 1;
    }
    proof {
        let spec = visible_rows_spec(
            ids,
            app.clipboard_dragging_id,
            app.clipboard_drop_target_id,
            app.clipboard_selected,
            start as int,
            end as int,
        );
        assert(po == preview_order(ids, app.clipboard_dragging_id, app.clipboard_drop_target_id));
        if start < hi {
            assert(idx == hi);
            assert forall|k: int| 0 <= k < rows@.len() implies rows@[k] == spec[k] by {}
            assert(rows@ =~= spec);
        } else {
            assert(rows@.len() == 0);
            assert(rows@ =~= spec);
        }
    }
    rows
}

/// The label of the button that clears the history.
pub const CLEAR_BUTTON_LABEL: &'static str = "清空";

/// The hint on the right of the status bar.
pub const STATUS_HINT: &'static str = "点击粘贴 · 双击删除 · 拖拽左侧调整顺序";

/// The status bar's count: `共 {n} 条`.
pub open spec fn status_text_spec(n: nat) -> Seq<char> {
    "共 "@ + decimal(n) + " 条"@
}

/// The status bar's text for a list of `n` entries.
pub fn clipboard_status_text(n: usize) -> (r: String)
    ensures
        r@ == status_text_spec(n as nat),
{
    let mut s = String::from_str("共 ");
    let count = decimal_string(n as u64);
    s.append(count.as_str());
    s.append(" 条");
    s
}

/// The label shown in place of the list: `暂无剪贴板记录` exactly when the
/// list is empty.
pub fn clipboard_empty_label(n: usize) -> (r: Option<&'static str>)
    ensures
        n == 0 ==> (r matches Some(l) && l@ == "暂无剪贴板记录"@),
        n != 0 ==> r is None,
{
    if n == 0 {
        Some("暂无剪贴板记录")
    } else {
        None
    }
}

/// A filter button is drawn outlined exactly when it selects the active filter.
pub fn filter_button_active(current: Option<ContentType>, button: Option<ContentType>) -> (r: bool)
    ensures
        r == (current == button),
{
    match (current, button) {
        (None, None) => true,
        (Some(a), Some(b)) => a == b,
        _ => false,
    }
}

/// The label of the filter button for `button` (`None`: all entries).
pub fn filter_button_label(button: Option<ContentType>) -> (r: &'static str)
    ensures
        button is None ==> r@ == "全部"@,
        button == Some(ContentType::Text) ==> r@ == "文本"@,
        button == Some(ContentType::File) ==> r@ == "文件"@,
{
    match button {
        None => "全部",
        Some(ContentType::Text) => "文本",
        Some(ContentType::File) => "文件",
    }
}

/// The drop target once the pointer is over content row `row` (the row its
/// height reaches, 0 above the list): with no entries it stays as it was;
/// it stays too while the current target is listed and the pointer is still
/// within that target's band; otherwise it is the entry at `row`, the last
/// one for a row below the list.
pub open spec fn drop_target_spec(
    ids: Seq<i64>,
    current: Option<i64>,
    row: u64,
    in_current_band: bool,
) -> Option<i64> {
    if ids.len() == 0 {
        current
    } else if in_current_band && current is Some && position_of(ids, current->0) is Some {
        current
    } else if row < ids.len() {
        Some(ids[row as int])
    } else {
        Some(ids[ids.len() - 1])
    }
}

/// The row of the current drop target, whose band the caller tests against
/// the pointer.
pub fn drop_target_row(items: &[ClipboardItem], current: Option<i64>) -> (r: Option<usize>)
    ensures
        match current {
            Some(c) => match r {
                Some(k) => position_of(item_ids(items@), c) == Some(k as int),
                None => position_of(item_ids(items@), c) is None,
            },
            None => r is None,
        },
{
    match current {
        Some(c) => find_id(items, c),
        None => None,
    }
}

/// The drop target for the pointer over content row `row`.
pub fn drop_target_for_row(items: &[ClipboardItem], current: Option<i64>, row: u64, in_current_band: bool) -> (r:
    Option<i64>)
    ensures
        r == drop_target_spec(item_ids(items@), current, row, in_current_band),
{
    let n = items.len();
    if n == 0 {
        return current;
    }
    if in_current_band {
        if let Some(c) = current {
            if find_id(items, c).is_some() {
                return current;
            }
        }
    }
    let idx: usize = if row < n as u64 {
        row as usize
    } else {
        n - 1
    };
    Some(items[idx].id)
}

} // verus!
