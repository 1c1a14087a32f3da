//! The system Win+V hotkey is switched by the `DisabledHotkeys` value under
//! `HKCU\SOFTWARE\Microsoft\Windows\CurrentVersion\Explorer\Advanced`: a `V`
//! in it disables the hotkey. Explorer applies a change after a restart.
use vstd::prelude::*;

use crate::text::{chars_of, push_char, string_from_chars};
use crate::win32::startup::ERROR_FILE_NOT_FOUND;
use crate::win32::wide::{until_nul, utf16_decode, utf16_to_string, nul_position};

verus! {

/// Win+V is disabled while the value holds a `V`.
pub fn is_win_v_disabled(current: &str) -> (r: bool)
    ensures
        r == current@.contains('V'),
{
    let cs = chars_of(current);
    let mut i: usize = 0;
    while i < cs.len()
        invariant
            i <= cs@.len(),
            cs@ == current@,
            forall|j: int| 0 <= j < i ==> cs@[j] != 'V',
        decreases cs@.len() - i,
    {
        if cs[i] == 'V' {
            return true;
        }
        i += 1;
    }
    false
}

/// The value that disables Win+V: `None` when it is disabled already, else
/// the current value with `V` appended.
pub fn disable_win_v(current: &str) -> (r: Option<String>)
    ensures
        current@.contains('V') ==> r is None,
        !current@.contains('V') ==> (r matches Some(v) && v@ == current@.push('V')),
{
    if is_win_v_disabled(current) {
        return None;
    }
    let mut v = String::from_str(current);
    push_char(&mut v, 'V');
    Some(v)
}

/// `s` without its `V` characters.
pub open spec fn without_v(s: Seq<char>) -> Seq<char>
    decreases s.len(),
{
    if s.len() == 0 {
        seq![]
    } else if s.last() == 'V' {
        without_v(s.drop_last())
    } else {
        without_v(s.drop_last()).push(s.last())
    }
}

/// How the `DisabledHotkeys` value changes.
#[derive(Clone, Debug, PartialEq, Eq)]
pub enum HotkeyValueUpdate {
    /// Write this text.
    Write(String),
    /// Delete the value (nothing else was disabled).
    Delete,
}

/// The value that enables Win+V: `None` when it is enabled already; else
/// every `V` removed, deleting the value when nothing is left.
pub fn enable_win_v(current: &str) -> (r: Option<HotkeyValueUpdate>)
    ensures
        !current@.contains('V') ==> r is None,
        current@.contains('V') && without_v(current@).len() == 0 ==> r == Some(HotkeyValueUpdate::Delete),
        current@.contains('V') && without_v(current@).len() > 0 ==> (r matches Some(
            HotkeyValueUpdate::Write(v),
        ) && v@ == without_v(current@)),
{
    if !is_win_v_disabled(current) {
        return None;
    }
    let cs = chars_of(current);
    let mut kept: Vec<char> = Vec::new();
    let mut i: usize = 0;
    while i < cs.len()
        invariant
            i <= cs@.len(),
            cs@ == current@,
            kept@ == without_v(cs@.take(i as int)),
        decreases cs@.len() - i,
    {
        proof {
            assert(cs@.take(i + 1).drop_last() =~= cs@.take(i as int));
        }
        if cs[i] != 'V' {
            kept.push(cs[i]);
        }
        i += 1;
    }
    assert(cs@.take(cs@.len() as int) =~= cs@);
    if kept.len() == 0 {
        Some(HotkeyValueUpdate::Delete)
    } else {
        Some(HotkeyValueUpdate::Write(string_from_chars(kept.as_slice())))
    }
}

proof fn lemma_without_v_push_v(s: Seq<char>)
    ensures
        without_v(s.push('V')) == without_v(s),
{
    assert(s.push('V').drop_last() =~= s);
}

proof fn lemma_without_v_identity(s: Seq<char>)
    requires
        !s.contains('V'),
    ensures
        without_v(s) == s,
    decreases s.len(),
{
    if s.len() > 0 {
        assert(!s.drop_last().contains('V')) by {
            if s.drop_last().contains('V') {
                let k = choose|k: int| 0 <= k < s.drop_last().len() && s.drop_last()[k] == 'V';
                assert(s[k] == 'V');
            }
        }
        lemma_without_v_identity(s.drop_last());
        assert(s.last() != 'V') by {
            assert(s[s.len() - 1] == s.last());
        }
        assert(s.drop_last().push(s.last()) =~= s);
    }
}

proof fn lemma_without_v_has_no_v(s: Seq<char>)
    ensures
        !without_v(s).contains('V'),
    decreases s.len(),
{
    if s.len() > 0 {
        lemma_without_v_has_no_v(s.drop_last());
        let w = without_v(s.drop_last());
        if s.last() != 'V' {
            assert forall|k: int| 0 <= k < w.push(s.last()).len() implies w.push(s.last())[k] != 'V' by {
                if k < w.len() {
                    assert(w[k] != 'V') by {
                        if w[k] == 'V' {
                            assert(w.contains('V'));
                        }
                    }
                }
            }
        }
    }
}

/// Enabling after disabling gives back the value as it was, when Win+V was
/// enabled to begin with; after disabling Win+V counts as disabled, after
/// enabling as enabled.
pub proof fn lemma_win_v_round_trip(current: Seq<char>)
    ensures
        current.push('V').contains('V'),
        !current.contains('V') ==> without_v(current.push('V')) == current,
        !without_v(current).contains('V'),
{
    assert(current.push('V')[current.len() as int] == 'V');
    lemma_without_v_push_v(current);
    if !current.contains('V') {
        lemma_without_v_identity(current);
    }
    lemma_without_v_has_no_v(current);
}

/// The text of the value as read into a buffer of UTF-16 units, `status`
/// being what `RegQueryValueExW` returned: empty when the value is absent
/// (`ERROR_FILE_NOT_FOUND`); the units before the first NUL among the
/// `byte_len / 2` returned, decoded lossily, when the read succeeded and the
/// value is a `REG_SZ`; `None` (nothing may be written) when the read failed
/// otherwise, the value does not fit the buffer, or it is of another type.
pub open spec fn reg_string_text(status: u32, is_reg_sz: bool, buf: Seq<u16>, byte_len: u32) -> Option<Seq<char>> {
    if status == ERROR_FILE_NOT_FOUND {
        Some(seq![])
    } else if status == 0 && is_reg_sz {
        Some(utf16_decode(until_nul(buf.take((byte_len / 2) as int))))
    } else {
        None
    }
}

/// Decode the `DisabledHotkeys` value as read.
pub fn read_reg_string(status: u32, is_reg_sz: bool, buf: &[u16], byte_len: u32) -> (r: Option<String>)
    requires
        status == 0 && is_reg_sz ==> (byte_len / 2) as int <= buf@.len(),
    ensures
        match r {
            Some(text) => reg_string_text(status, is_reg_sz, buf@, byte_len) == Some(text@),
            None => reg_string_text(status, is_reg_sz, buf@, byte_len) is None,
        },
{
    if status == ERROR_FILE_NOT_FOUND {
        return Some(String::new());
    }
    if status != 0 || !is_reg_sz {
        return None;
    }
    let chars = (byte_len / 2) as usize;
    let mut head: Vec<u16> = Vec::new();
    let mut i: usize = 0;
    while i < chars
        invariant
            i <= chars <= buf@.len(),
            head@ == buf@.take(i as int),
        decreases chars - i,
    {
        head.push(buf[i]);
        i += 1;
        assert(head@ =~= buf@.take(i as int));
    }
    let len = nul_position(head.as_slice());
    let mut units: Vec<u16> = Vec::new();
    let mut k: usize = 0;
    while k < len
        invariant
            k <= len <= head@.len(),
            units@ == head@.take(k as int),
        decreases len - k,
    {
        units.push(head[k]);
        k += 1;
        assert(units@ =~= head@.take(k as int));
    }
    Some(utf16_to_string(units.as_slice()))
}

} // verus!
