//! User-facing summaries of a cleanup run.
use vstd::prelude::*;

use crate::memory::{format_bytes_spec, MemoryStatus};
use crate::text::{decimal, decimal_string, join, join_strs, str_views};

verus! {

/// `"+<freed>"` when available memory grew, else the empty string.
pub open spec fn freed_message_spec(avail_before: u64, avail_after: u64) -> Seq<char> {
    if avail_after > avail_before {
        seq!['+'] + format_bytes_spec((avail_after - avail_before) as nat)
    } else {
        seq![]
    }
}

/// The message reports how much available memory grew, not either reading:
/// shifting both readings by the same amount leaves it unchanged; from 0 it
/// is `+` and the rendering of the reading; when memory did not grow there is
/// nothing to report.
pub proof fn lemma_freed_message_reports_growth(before: u64, after: u64, shift: u64)
    requires
        before + shift <= u64::MAX,
        after + shift <= u64::MAX,
    ensures
        freed_message_spec((before + shift) as u64, (after + shift) as u64) == freed_message_spec(
            before,
            after,
        ),
        after > before ==> freed_message_spec(before, after) == freed_message_spec(
            0,
            (after - before) as u64,
        ),
        after > 0 ==> freed_message_spec(0, after) == seq!['+'] + format_bytes_spec(after as nat),
        after <= before ==> freed_message_spec(before, after).len() == 0,
{
}

pub fn format_freed_message(avail_before: u64, avail_after: u64) -> (r: String)
    ensures
        r@ == freed_message_spec(avail_before, avail_after),
{
    if avail_after > avail_before {
        let mut s = String::new();
        s.append("+");
        let bytes = MemoryStatus::format_bytes(avail_after - avail_before);
        s.append(bytes.as_str());
        proof {
            reveal_strlit("+");
        }
        assert(s@ =~= freed_message_spec(avail_before, avail_after));
        s
    } else {
        String::new()
    }
}

/// "未执行清理"
pub open spec fn nothing_done_text() -> Seq<char> {
    seq!['未', '执', '行', '清', '理']
}

/// "清理失败："
pub open spec fn failed_prefix() -> Seq<char> {
    seq!['清', '理', '失', '败', '：']
}

/// "清理完成（"
pub open spec fn done_count_prefix() -> Seq<char> {
    seq!['清', '理', '完', '成', '（']
}

/// " 项）"
pub open spec fn done_count_suffix() -> Seq<char> {
    seq![' ', '项', '）']
}

/// "清理完成 · "
pub open spec fn done_detail_prefix() -> Seq<char> {
    seq!['清', '理', '完', '成', ' ', '·', ' ']
}

/// "完成 "
pub open spec fn partial_prefix() -> Seq<char> {
    seq!['完', '成', ' ']
}

/// " 项，失败："
pub open spec fn partial_middle() -> Seq<char> {
    seq![' ', '项', '，', '失', '败', '：']
}

/// "、"
pub open spec fn list_separator() -> Seq<char> {
    seq!['、']
}

/// The summary of a cleanup run from the labels of the steps that completed
/// and of those that failed, and the freed-memory detail (possibly empty).
pub open spec fn cleanup_message_spec(
    completed: Seq<Seq<char>>,
    errors: Seq<Seq<char>>,
    freed_detail: Seq<char>,
) -> Seq<char> {
    if completed.len() == 0 && errors.len() == 0 {
        nothing_done_text()
    } else if completed.len() == 0 {
        failed_prefix() + join(errors, list_separator())
    } else if errors.len() == 0 {
        if freed_detail.len() == 0 {
            done_count_prefix() + decimal(completed.len()) + done_count_suffix()
        } else {
            done_detail_prefix() + freed_detail
        }
    } else {
        partial_prefix() + decimal(completed.len()) + partial_middle() + join(
            errors,
            list_separator(),
        )
    }
}

pub fn build_cleanup_result_message(completed: &[&str], errors: &[&str], freed_detail: &str) -> (r:
    String)
    ensures
        r@ == cleanup_message_spec(str_views(completed@), str_views(errors@), freed_detail@),
{
    proof {
        reveal_strlit("未执行清理");
        reveal_strlit("清理失败：");
        reveal_strlit("清理完成（");
        reveal_strlit(" 项）");
        reveal_strlit("清理完成 · ");
        reveal_strlit("完成 ");
        reveal_strlit(" 项，失败：");
        reveal_strlit("、");
    }
    let ghost c = str_views(completed@);
    let ghost e = str_views(errors@);
    assert(c.len() == completed@.len());
    assert(e.len() == errors@.len());
    assert("、"@ =~= list_separator());
    if completed.len() == 0 && errors.len() == 0 {
        let s = String::from_str("未执行清理");
        assert(s@ =~= nothing_done_text());
        s
    } else if completed.len() == 0 {
        let mut s = String::from_str("清理失败：");
        let joined = join_strs(errors, "、");
        s.append(joined.as_str());
        assert(s@ =~= cleanup_message_spec(c, e, freed_detail@));
        s
    } else if errors.len() == 0 {
        if freed_detail.is_empty() {
            let mut s = String::from_str("清理完成（");
            let count = decimal_string(completed.len() as u64);
            s.append(count.as_str());
            s.append(" 项）");
            assert(s@ =~= cleanup_message_spec(c, e, freed_detail@));
            s
        } else {
            let mut s = String::from_str("清理完成 · ");
            s.append(freed_detail);
            assert(s@ =~= cleanup_message_spec(c, e, freed_detail@));
            s
        }
    } else {
        let mut s = String::from_str("完成 ");
        let count = decimal_string(completed.len() as u64);
        s.append(count.as_str());
        s.append(" 项，失败：");
        let joined = join_strs(errors, "、");
        s.append(joined.as_str());
        assert(s@ =~= cleanup_message_spec(c, e, freed_detail@));
        s
    }
}

} // verus!
