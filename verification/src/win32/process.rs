//! Process names and the rules built on them: exclusion matching, the
//! exclusion picker's list, snapshot lookups and launch specifications.
use vstd::prelude::*;

use crate::memory::{format_bytes_spec, MemoryStatus};
use crate::text::{
    ascii_lower, char_ascii_lower, char_is_whitespace, chars_lt, chars_of, is_whitespace, lex_lt,
    lemma_lex_lt_asymmetric, lemma_lex_lt_irreflexive, lemma_lex_lt_total,
    lemma_lex_lt_transitive, push_char, string_from_char_range, decimal, decimal_string,
};
use crate::win32::wide::{nul_position, until_nul, utf16_decode, utf16_encode, utf16_to_string, utf16_units};

verus! {

// ---------------------------------------------------------------------------
// Names
// ---------------------------------------------------------------------------

/// `s` without whitespace, ASCII letters lower-cased.
pub open spec fn squeeze_lower(s: Seq<char>) -> Seq<char>
    decreases s.len(),
{
    if s.len() == 0 {
        seq![]
    } else {
        let before = squeeze_lower(s.drop_last());
        if is_whitespace(s.last()) {
            before
        } else {
            before.push(ascii_lower(s.last()))
        }
    }
}

/// ".exe"
pub open spec fn exe_suffix() -> Seq<char> {
    seq!['.', 'e', 'x', 'e']
}

/// `t` without a trailing `.exe`.
pub open spec fn strip_exe(t: Seq<char>) -> Seq<char> {
    if t.len() >= 4 && t.subrange(t.len() - 4, t.len() as int) == exe_suffix() {
        t.take(t.len() - 4)
    } else {
        t
    }
}

/// The name used for exclusion matching: no whitespace, ASCII lower case, no `.exe`.
pub open spec fn normalized_name(s: Seq<char>) -> Seq<char> {
    strip_exe(squeeze_lower(s))
}

/// Keeps the characters that are not whitespace.
pub open spec fn not_whitespace() -> spec_fn(char) -> bool {
    |c: char| !is_whitespace(c)
}

/// ASCII lower-casing of one character, as a function.
pub open spec fn lower_char() -> spec_fn(char) -> char {
    |c: char| ascii_lower(c)
}

proof fn lemma_squeeze_lower_is_filter_map(s: Seq<char>)
    ensures
        squeeze_lower(s) == s.filter(not_whitespace()).map_values(lower_char()),
    decreases s.len(),
{
    reveal(Seq::filter);
    if s.len() > 0 {
        lemma_squeeze_lower_is_filter_map(s.drop_last());
        let t = s.drop_last().filter(not_whitespace());
        if !is_whitespace(s.last()) {
            assert(t.push(s.last()).map_values(lower_char()) =~= t.map_values(lower_char()).push(
                ascii_lower(s.last()),
            ));
        }
    }
}

/// Lower-casing keeps a character that is not whitespace so.
proof fn lemma_lower_keeps_non_whitespace(c: char)
    requires
        !is_whitespace(c),
    ensures
        !is_whitespace(ascii_lower(c)),
{
    if 'A' <= c && c <= 'Z' {
        assert(65 <= (c as u32) <= 90);
        assert(97 <= (ascii_lower(c) as u32) <= 122);
    }
}

/// The name matched against exclusions is the input with every whitespace
/// character removed, wherever it stands, and the others ASCII-lower-cased
/// in order; a final `.exe` is then cut. No whitespace is left in it.
pub proof fn lemma_normalized_name(s: Seq<char>)
    ensures
        ({
            let t = s.filter(not_whitespace()).map_values(lower_char());
            &&& squeeze_lower(s) == t
            &&& normalized_name(s) == (if t.len() >= 4 && t.subrange(t.len() - 4, t.len() as int)
                == seq!['.', 'e', 'x', 'e'] {
                t.take(t.len() - 4)
            } else {
                t
            })
        }),
        forall|i: int|
            0 <= i < normalized_name(s).len() ==> !is_whitespace(#[trigger] normalized_name(s)[i]),
{
    broadcast use vstd::seq_lib::group_filter_ensures;

    lemma_squeeze_lower_is_filter_map(s);
    let f = s.filter(not_whitespace());
    let t = f.map_values(lower_char());
    assert forall|i: int| 0 <= i < normalized_name(s).len() implies !is_whitespace(
        #[trigger] normalized_name(s)[i],
    ) by {
        assert(normalized_name(s)[i] == t[i]);
        assert(not_whitespace()(f[i]));
        lemma_lower_keeps_non_whitespace(f[i]);
    }
}

/// Normalize a process name for exclusion matching: lowercase, no whitespace, no `.exe`.
pub fn normalize_process_name(name: &str) -> (r: String)
    ensures
        r@ == normalized_name(name@),
{
    let mut kept: Vec<char> = Vec::new();
    broadcast use vstd::string::group_string_axioms;

    for c in it: name.chars()
        invariant
            it.seq() == name@,
            kept@ == squeeze_lower(name@.take(it.index())),
    {
        let ghost before = name@.take(it.index());
        proof {
            assert(name@.take(it.index() + 1).drop_last() =~= before);
            assert(name@.take(it.index() + 1).last() == c);
        }
        if !char_is_whitespace(c) {
            kept.push(char_ascii_lower(c));
        }
    }
    proof {
        assert(name@.take(name@.len() as int) =~= name@);
    }
    let n = kept.len();
    if n >= 4 && kept[n - 4] == '.' && kept[n - 3] == 'e' && kept[n - 2] == 'x' && kept[n - 1]
        == 'e' {
        proof {
            assert(kept@.subrange(n - 4, n as int) =~= exe_suffix());
        }
        let r = string_from_char_range(kept.as_slice(), 0, n - 4);
        assert(r@ =~= normalized_name(name@));
        r
    } else {
        proof {
            if n >= 4 {
                let t = kept@.subrange(n - 4, n as int);
                if t == exe_suffix() {
                    assert(t[0] == kept@[n - 4]);
                    assert(t[1] == kept@[n - 3]);
                    assert(t[2] == kept@[n - 2]);
                    assert(t[3] == kept@[n - 1]);
                }
            }
        }
        let r = string_from_char_range(kept.as_slice(), 0, n);
        assert(r@ =~= normalized_name(name@));
        r
    }
}

/// "[systemprocess]"
pub open spec fn system_process_name() -> Seq<char> {
    seq!['[', 's', 'y', 's', 't', 'e', 'm', 'p', 'r', 'o', 'c', 'e', 's', 's', ']']
}

/// "systemidleprocess"
pub open spec fn idle_process_name() -> Seq<char> {
    seq!['s', 'y', 's', 't', 'e', 'm', 'i', 'd', 'l', 'e', 'p', 'r', 'o', 'c', 'e', 's', 's']
}

pub open spec fn is_hidden_name(name: Seq<char>) -> bool {
    name == system_process_name() || name == idle_process_name()
}

/// Processes that do not appear in the exclusion picker.
pub fn is_picker_hidden_process(name: &str) -> (r: bool)
    ensures
        r == is_hidden_name(name@),
{
    proof {
        reveal_strlit("[systemprocess]");
        reveal_strlit("systemidleprocess");
    }
    let a = String::from_str("[systemprocess]");
    let b = String::from_str("systemidleprocess");
    let n = name.to_owned();
    assert("[systemprocess]"@ =~= system_process_name());
    assert("systemidleprocess"@ =~= idle_process_name());
    n == a || n == b
}

/// The views of a list of names.
pub open spec fn name_views(names: Seq<String>) -> Seq<Seq<char>> {
    names.map_values(|s: String| s@)
}

fn contains_name(names: &[String], name: &String) -> (r: bool)
    ensures
        r == name_views(names@).contains(name@),
{
    let mut i: usize = 0;
    while i < names.len()
        invariant
            i <= names@.len(),
            forall|j: int| 0 <= j < i ==> names@[j]@ != name@,
        decreases names@.len() - i,
    {
        if names[i] == *name {
            assert(name_views(names@)[i as int] == name@);
            return true;
        }
        i += 1;
    }
    proof {
        if name_views(names@).contains(name@) {
            let k = choose|k: int| 0 <= k < names@.len() && #[trigger] name_views(names@)[k] == name@;
            assert(names@[k]@ == name@);
        }
    }
    false
}

/// The process is excluded when its normalized name is one of `excluded`.
pub fn is_process_excluded(process_name: &str, excluded: &[String]) -> (r: bool)
    ensures
        r == name_views(excluded@).contains(normalized_name(process_name@)),
{
    let normalized = normalize_process_name(process_name);
    contains_name(excluded, &normalized)
}

/// Whether a snapshot entry's `szExeFile` (up to its NUL) is exactly `target`.
pub fn exe_name_matches(exe_file: &[u16], target: &[u16]) -> (r: bool)
    ensures
        r == (until_nul(exe_file@) == target@),
{
    let len = nul_position(exe_file);
    if len != target.len() {
        proof {
            if until_nul(exe_file@) == target@ {
                assert(exe_file@.take(len as int).len() == len);
            }
        }
        return false;
    }
    let mut i: usize = 0;
    while i < len
        invariant
            i <= len == target@.len() <= exe_file@.len(),
            exe_file@.take(len as int) == until_nul(exe_file@),
            forall|j: int| 0 <= j < i ==> exe_file@[j] == target@[j],
        decreases len - i,
    {
        if exe_file[i] != target[i] {
            proof {
                if until_nul(exe_file@) == target@ {
                    assert(exe_file@.take(len as int)[i as int] == exe_file@[i as int]);
                }
            }
            return false;
        }
        i += 1;
    }
    assert(exe_file@.take(len as int) =~= target@);
    true
}

/// The normalized base name of a snapshot entry's `szExeFile`.
pub open spec fn exe_base_name_spec(exe_file: Seq<u16>) -> Seq<char> {
    normalized_name(utf16_decode(until_nul(exe_file)))
}

pub fn exe_base_name(exe_file: &[u16]) -> (r: String)
    ensures
        r@ == exe_base_name_spec(exe_file@),
{
    let len = nul_position(exe_file);
    let mut units: Vec<u16> = Vec::new();
    let mut i: usize = 0;
    while i < len
        invariant
            i <= len <= exe_file@.len(),
            units@ == exe_file@.take(i as int),
        decreases len - i,
    {
        units.push(exe_file[i]);
        i += 1;
        assert(units@ =~= exe_file@.take(i as int));
    }
    let text = utf16_to_string(units.as_slice());
    normalize_process_name(text.as_str())
}

// ---------------------------------------------------------------------------
// Snapshot lookups
// ---------------------------------------------------------------------------

/// A process of a snapshot: its id and its `szExeFile` buffer.
pub open spec fn entry_is(entry: (u32, Vec<u16>), exe_name: Seq<char>) -> bool {
    until_nul(entry.1@) == utf16_encode(exe_name)
}

/// Another process (not `current_pid`) runs the executable `exe_name`.
pub fn has_sibling_process(current_pid: u32, exe_name: &str, processes: &[(u32, Vec<u16>)]) -> (r:
    bool)
    ensures
        r == exists|i: int|
            0 <= i < processes@.len() && (#[trigger] processes@[i]).0 != current_pid && entry_is(
                processes@[i],
                exe_name@,
            ),
{
    let target = utf16_units(exe_name);
    let mut i: usize = 0;
    while i < processes.len()
        invariant
            i <= processes@.len(),
            target@ == utf16_encode(exe_name@),
            forall|j: int|
                0 <= j < i ==> !((#[trigger] processes@[j]).0 != current_pid && entry_is(
                    processes@[j],
                    exe_name@,
                )),
        decreases processes@.len() - i,
    {
        let (pid, exe) = (&processes[i].0, &processes[i].1);
        if *pid != current_pid && exe_name_matches(exe.as_slice(), target.as_slice()) {
            return true;
        }
        i += 1;
    }
    false
}

/// Some process runs the executable `exe_name`.
pub fn is_process_running(exe_name: &str, processes: &[(u32, Vec<u16>)]) -> (r: bool)
    ensures
        r == exists|i: int|
            0 <= i < processes@.len() && entry_is(#[trigger] processes@[i], exe_name@),
{
    let target = utf16_units(exe_name);
    let mut i: usize = 0;
    while i < processes.len()
        invariant
            i <= processes@.len(),
            target@ == utf16_encode(exe_name@),
            forall|j: int| 0 <= j < i ==> !entry_is(#[trigger] processes@[j], exe_name@),
        decreases processes@.len() - i,
    {
        if exe_name_matches(processes[i].1.as_slice(), target.as_slice()) {
            return true;
        }
        i += 1;
    }
    false
}

/// Ids of the snapshot entries running `exe_name`, in snapshot order.
pub open spec fn matching_pids(processes: Seq<(u32, Vec<u16>)>, exe_name: Seq<char>) -> Seq<u32>
    decreases processes.len(),
{
    if processes.len() == 0 {
        seq![]
    } else {
        let before = matching_pids(processes.drop_last(), exe_name);
        if entry_is(processes.last(), exe_name) {
            before.push(processes.last().0)
        } else {
            before
        }
    }
}

/// The processes `kill_process_by_name` terminates: every one running
/// `exe_name`, in snapshot order.
pub fn kill_targets(exe_name: &str, processes: &[(u32, Vec<u16>)]) -> (r: Vec<u32>)
    ensures
        r@ == matching_pids(processes@, exe_name@),
{
    let target = utf16_units(exe_name);
    let mut pids: Vec<u32> = Vec::new();
    let mut i: usize = 0;
    while i < processes.len()
        invariant
            i <= processes@.len(),
            target@ == utf16_encode(exe_name@),
            pids@ == matching_pids(processes@.take(i as int), exe_name@),
        decreases processes@.len() - i,
    {
        proof {
            assert(processes@.take(i + 1).drop_last() =~= processes@.take(i as int));
        }
        if exe_name_matches(processes[i].1.as_slice(), target.as_slice()) {
            pids.push(processes[i].0);
        }
        i += 1;
    }
    assert(processes@.take(processes@.len() as int) =~= processes@);
    pids
}

/// The snapshot entries whose working set is emptied, with their base
/// names: those whose name is not excluded, in snapshot order.
pub open spec fn working_set_target_list(
    processes: Seq<(u32, Vec<u16>)>,
    excluded: Seq<Seq<char>>,
) -> Seq<(u32, Seq<char>)>
    decreases processes.len(),
{
    if processes.len() == 0 {
        seq![]
    } else {
        let before = working_set_target_list(processes.drop_last(), excluded);
        let name = exe_base_name_spec(processes.last().1@);
        if excluded.contains(normalized_name(name)) {
            before
        } else {
            before.push((processes.last().0, name))
        }
    }
}

/// The processes `empty_working_sets_except` works on: every snapshot entry
/// whose base name is not excluded, with that name for error reports.
pub fn working_set_targets(excluded: &[String], processes: &[(u32, Vec<u16>)]) -> (r: Vec<
    (u32, String),
>)
    ensures
        r@.len() == working_set_target_list(processes@, name_views(excluded@)).len(),
        forall|k: int|
            0 <= k < r@.len() ==> (#[trigger] r@[k]).0 == working_set_target_list(
                processes@,
                name_views(excluded@),
            )[k].0 && r@[k].1@ == working_set_target_list(processes@, name_views(excluded@))[k].1,
{
    let ghost ex = name_views(excluded@);
    let mut out: Vec<(u32, String)> = Vec::new();
    let mut i: usize = 0;
    while i < processes.len()
        invariant
            i <= processes@.len(),
            ex == name_views(excluded@),
            out@.len() == working_set_target_list(processes@.take(i as int), ex).len(),
            forall|k: int|
                0 <= k < out@.len() ==> (#[trigger] out@[k]).0 == working_set_target_list(
                    processes@.take(i as int),
                    ex,
                )[k].0 && out@[k].1@ == working_set_target_list(processes@.take(i as int), ex)[k].1,
        decreases processes@.len() - i,
    {
        let ghost prev = working_set_target_list(processes@.take(i as int), ex);
        proof {
            assert(processes@.take(i + 1).drop_last() =~= processes@.take(i as int));
            assert(processes@.take(i + 1).last() == processes@[i as int]);
        }
        let name = exe_base_name(processes[i].1.as_slice());
        if !is_process_excluded(name.as_str(), excluded) {
            out.push((processes[i].0, name));
        }
        i += 1;
    }
    assert(processes@.take(processes@.len() as int) =~= processes@);
    out
}

/// One line of the per-process error report: `name (pid N): WIN32_ERROR(E)`,
/// the error written as `windows` debug-prints it.
pub fn working_set_error_message(name: &str, pid: u32, last_error: u32) -> (r: String)
    ensures
        r@ == name@ + " (pid "@ + decimal(pid as nat) + "): WIN32_ERROR("@ + decimal(
            last_error as nat,
        ) + ")"@,
{
    let mut s = String::from_str(name);
    s.append(" (pid ");
    let p = decimal_string(pid as u64);
    s.append(p.as_str());
    s.append("): WIN32_ERROR(");
    let e = decimal_string(last_error as u64);
    s.append(e.as_str());
    s.append(")");
    s
}

// ---------------------------------------------------------------------------
// The exclusion picker
// ---------------------------------------------------------------------------

/// A running executable as the exclusion picker lists it.
#[derive(Clone, Debug, PartialEq, Eq)]
pub struct ProcessPickerEntry {
    pub name: String,
    pub instance_count: u32,
    pub working_set_bytes: u64,
    /// How many instances returned a readable working-set size.
    pub memory_readable_count: u32,
}

impl ProcessPickerEntry {
    /// The summed working set for display, when at least one instance could be read.
    pub fn memory_display(&self) -> (r: Option<String>)
        ensures
            self.memory_readable_count == 0 ==> r is None,
            self.memory_readable_count != 0 ==> (r matches Some(s) && s@ == format_bytes_spec(
                self.working_set_bytes as nat,
            )),
    {
        if self.memory_readable_count == 0 {
            None
        } else {
            Some(MemoryStatus::format_bytes(self.working_set_bytes))
        }
    }
}

/// A sampled process: its normalized base name and its working set, when readable.
pub open spec fn sample_view(s: (String, Option<u64>)) -> (Seq<char>, Option<u64>) {
    (s.0@, s.1)
}

pub open spec fn samples_view(s: Seq<(String, Option<u64>)>) -> Seq<(Seq<char>, Option<u64>)> {
    s.map_values(|x: (String, Option<u64>)| sample_view(x))
}

/// The picker lists a name when it is not empty, not this program, not a
/// hidden system entry and not already excluded.
pub open spec fn picker_lists(name: Seq<char>, self_name: Seq<char>, excluded: Seq<Seq<char>>) -> bool {
    &&& name.len() > 0
    &&& name != self_name
    &&& !is_hidden_name(name)
    &&& !excluded.contains(name)
}

/// Number of samples named `n`.
pub open spec fn instances(s: Seq<(Seq<char>, Option<u64>)>, n: Seq<char>) -> nat
    decreases s.len(),
{
    if s.len() == 0 {
        0
    } else {
        instances(s.drop_last(), n) + if s.last().0 == n {
            1nat
        } else {
            0nat
        }
    }
}

/// Number of samples named `n` whose working set was readable.
pub open spec fn readable_instances(s: Seq<(Seq<char>, Option<u64>)>, n: Seq<char>) -> nat
    decreases s.len(),
{
    if s.len() == 0 {
        0
    } else {
        readable_instances(s.drop_last(), n) + if s.last().0 == n && s.last().1 is Some {
            1nat
        } else {
            0nat
        }
    }
}

/// Total readable working set of the samples named `n`.
pub open spec fn working_set_total(s: Seq<(Seq<char>, Option<u64>)>, n: Seq<char>) -> nat
    decreases s.len(),
{
    if s.len() == 0 {
        0
    } else {
        working_set_total(s.drop_last(), n) + match s.last() {
            (m, Some(b)) => if m == n {
                b as nat
            } else {
                0nat
            },
            _ => 0nat,
        }
    }
}

pub open spec fn saturate_u64(v: nat) -> u64 {
    if v > u64::MAX {
        u64::MAX
    } else {
        v as u64
    }
}

/// What the picker shows for the name `n`: its instance count, readable
/// count and (saturated) working-set total.
pub open spec fn entry_matches(e: ProcessPickerEntry, s: Seq<(Seq<char>, Option<u64>)>) -> bool {
    &&& e.instance_count as nat == instances(s, e.name@)
    &&& e.memory_readable_count as nat == readable_instances(s, e.name@)
    &&& e.working_set_bytes == saturate_u64(working_set_total(s, e.name@))
}

/// The picker's list for these samples: one entry per listed name, names in
/// strictly increasing order, each entry aggregating all samples of its name.
pub open spec fn picker_list_spec(
    r: Seq<ProcessPickerEntry>,
    s: Seq<(Seq<char>, Option<u64>)>,
    self_name: Seq<char>,
    excluded: Seq<Seq<char>>,
) -> bool {
    &&& forall|i: int, j: int| 0 <= i < j < r.len() ==> lex_lt(#[trigger] r[i].name@, #[trigger] r[j].name@)
    &&& forall|i: int|
        0 <= i < r.len() ==> picker_lists(#[trigger] r[i].name@, self_name, excluded)
            && instances(s, r[i].name@) > 0 && entry_matches(r[i], s)
    &&& forall|k: int|
        0 <= k < s.len() && picker_lists(#[trigger] s[k].0, self_name, excluded) ==> exists|i: int|
            0 <= i < r.len() && (#[trigger] r[i].name@) == s[k].0
}

proof fn lemma_counts_other(s: Seq<(Seq<char>, Option<u64>)>, x: (Seq<char>, Option<u64>), n: Seq<char>)
    requires
        x.0 != n,
    ensures
        instances(s.push(x), n) == instances(s, n),
        readable_instances(s.push(x), n) == readable_instances(s, n),
        working_set_total(s.push(x), n) == working_set_total(s, n),
{
    assert(s.push(x).drop_last() =~= s);
}

proof fn lemma_counts_same(s: Seq<(Seq<char>, Option<u64>)>, x: (Seq<char>, Option<u64>))
    ensures
        instances(s.push(x), x.0) == instances(s, x.0) + 1,
        readable_instances(s.push(x), x.0) == readable_instances(s, x.0) + if x.1 is Some {
            1nat
        } else {
            0nat
        },
        working_set_total(s.push(x), x.0) == working_set_total(s, x.0) + match x.1 {
            Some(b) => b as nat,
            None => 0nat,
        },
{
    assert(s.push(x).drop_last() =~= s);
}

proof fn lemma_instances_bound(s: Seq<(Seq<char>, Option<u64>)>, n: Seq<char>)
    ensures
        readable_instances(s, n) <= instances(s, n) <= s.len(),
    decreases s.len(),
{
    if s.len() > 0 {
        lemma_instances_bound(s.drop_last(), n);
    }
}

proof fn lemma_instances_positive(s: Seq<(Seq<char>, Option<u64>)>, k: int)
    requires
        0 <= k < s.len(),
    ensures
        instances(s, s[k].0) > 0,
    decreases s.len(),
{
    if k < s.len() - 1 {
        lemma_instances_positive(s.drop_last(), k);
        assert(s.drop_last()[k] == s[k]);
    }
}

/// Distinct running executables for the exclusion picker, from a snapshot
/// sampled as (normalized base name, readable working set): system and hidden
/// entries, this program and already excluded names are left out; instances of
/// a name are counted and their working sets summed (saturating); names sort
/// in increasing order.
pub fn list_processes_for_exclusion_picker(
    self_base: &str,
    excluded: &[String],
    samples: &[(String, Option<u64>)],
) -> (r: Vec<ProcessPickerEntry>)
    requires
        samples@.len() < u32::MAX,
    ensures
        picker_list_spec(
            r@,
            samples_view(samples@),
            normalized_name(self_base@),
            name_views(excluded@),
        ),
{
    let self_normalized = normalize_process_name(self_base);
    let ghost sv = samples_view(samples@);
    let ghost sn = normalized_name(self_base@);
    let ghost ex = name_views(excluded@);
    let mut entries: Vec<ProcessPickerEntry> = Vec::new();
    let mut k: usize = 0;
    while k < samples.len()
        invariant
            k <= samples@.len() < u32::MAX,
            sv == samples_view(samples@),
            self_normalized@ == sn,
            ex == name_views(excluded@),
            forall|i: int, j: int|
                0 <= i < j < entries@.len() ==> lex_lt(
                    #[trigger] entries@[i].name@,
                    #[trigger] entries@[j].name@,
                ),
            forall|i: int|
                0 <= i < entries@.len() ==> picker_lists(#[trigger] entries@[i].name@, sn, ex)
                    && instances(sv.take(k as int), entries@[i].name@) > 0 && entry_matches(
                    entries@[i],
                    sv.take(k as int),
                ),
            forall|m: int|
                0 <= m < k && picker_lists(#[trigger] sv[m].0, sn, ex) ==> exists|i: int|
                    0 <= i < entries@.len() && (#[trigger] entries@[i].name@) == sv[m].0,
        decreases samples@.len() - k,
    {
        let ghost prev = sv.take(k as int);
        let ghost cur = sv.take(k + 1);
        let ghost x = sv[k as int];
        proof {
            assert(cur =~= prev.push(x));
            assert(x == sample_view(samples@[k as int]));
        }
        let name = &samples[k].0;
        let ws = samples[k].1;
        let listed = !name.as_str().is_empty() && *name != self_normalized && !is_picker_hidden_process(
            name.as_str(),
        ) && !contains_name(excluded, name);
        proof {

            assert(listed == picker_lists(x.0, sn, ex));
        }
        if !listed {
            proof {
                assert forall|i: int| 0 <= i < entries@.len() implies entry_matches(
                    #[trigger] entries@[i],
                    cur,
                ) && instances(cur, entries@[i].name@) > 0 by {
                    lemma_counts_other(prev, x, entries@[i].name@);
                }
                assert forall|m: int|
                    0 <= m < k + 1 && picker_lists(#[trigger] sv[m].0, sn, ex) implies exists|i: int|
                    0 <= i < entries@.len() && (#[trigger] entries@[i].name@) == sv[m].0 by {
                    if m == k {
                        assert(false);
                    }
                }
            }
            k += 1;
        } else {
            let name_chars = chars_of(name.as_str());
            // First position whose name does not sort before `name`.
            let mut pos: usize = 0;
            let mut stop = false;
            while pos < entries.len() && !stop
                invariant
                    pos <= entries@.len(),
                    name_chars@ == x.0,
                    forall|i: int| 0 <= i < pos ==> lex_lt(#[trigger] entries@[i].name@, x.0),
                    stop ==> pos < entries@.len() && !lex_lt(entries@[pos as int].name@, x.0),
                decreases entries@.len() - pos + (if stop { 0int } else { 1int }),
            {
                let other = chars_of(entries[pos].name.as_str());
                if chars_lt(other.as_slice(), name_chars.as_slice()) {
                    pos += 1;
                } else {
                    stop = true;
                }
            }
            let ghost old_entries = entries@;
            proof {
                lemma_instances_bound(cur, x.0);
            }
            if pos < entries.len() && entries[pos].name == *name {
                // Another instance of a listed name.
                let e = &entries[pos];
                proof {
                    lemma_counts_same(prev, x);
                    assert(e.name@ == x.0);
                    lemma_instances_bound(prev, x.0);
                }
                let readable = if ws.is_some() {
                    e.memory_readable_count + 1
                } else {
                    e.memory_readable_count
                };
                let total = match ws {
                    Some(b) => e.working_set_bytes.saturating_add(b),
                    None => e.working_set_bytes,
                };
                let updated = ProcessPickerEntry {
                    name: e.name.clone(),
                    instance_count: e.instance_count + 1,
                    working_set_bytes: total,
                    memory_readable_count: readable,
                };
                proof {
                    lemma_counts_same(prev, x);
                }
                entries.set(pos, updated);
                proof {
                    assert forall|i: int| 0 <= i < entries@.len() implies entry_matches(
                        #[trigger] entries@[i],
                        cur,
                    ) && instances(cur, entries@[i].name@) > 0 by {
                        if i != pos {
                            assert(entries@[i] == old_entries[i]);
                            if entries@[i].name@ == x.0 {
                                lemma_lex_lt_irreflexive(x.0);
                                if i < pos {
                                    assert(lex_lt(old_entries[i].name@, old_entries[pos as int].name@));
                                } else {
                                    assert(lex_lt(old_entries[pos as int].name@, old_entries[i].name@));
                                }
                            }
                            lemma_counts_other(prev, x, entries@[i].name@);
                        }
                    }
                    assert forall|m: int|
                        0 <= m < k + 1 && picker_lists(#[trigger] sv[m].0, sn, ex) implies exists|i: int|
                        0 <= i < entries@.len() && (#[trigger] entries@[i].name@) == sv[m].0 by {
                        if m == k {
                            assert(entries@[pos as int].name@ == sv[m].0);
                        } else {
                            let i = choose|i: int|
                                0 <= i < old_entries.len() && (#[trigger] old_entries[i].name@) == sv[m].0;
                            assert(entries@[i].name@ == old_entries[i].name@);
                        }
                    }
                }
            } else {
                // A new name, inserted at its sorted place.
                let fresh = ProcessPickerEntry {
                    name: name.clone(),
                    instance_count: 1,
                    working_set_bytes: match ws {
                        Some(b) => b,
                        None => 0,
                    },
                    memory_readable_count: if ws.is_some() {
                        1
                    } else {
                        0
                    },
                };
                proof {
                    lemma_counts_same(prev, x);
                    // `x.0` is new: no entry carries it.
                    assert forall|i: int| 0 <= i < old_entries.len() implies (#[trigger] old_entries[i].name@)
                        != x.0 by {
                        lemma_lex_lt_irreflexive(x.0);
                        if i >= pos && old_entries[i].name@ == x.0 {
                            if i > pos {
                                assert(lex_lt(old_entries[pos as int].name@, old_entries[i].name@));
                                lemma_lex_lt_total(old_entries[pos as int].name@, x.0);
                            }
                        }
                    }
                    if pos < old_entries.len() {
                        lemma_lex_lt_total(old_entries[pos as int].name@, x.0);
                        assert(lex_lt(x.0, old_entries[pos as int].name@));
                    }
                    assert(instances(prev, x.0) == 0) by {
                        if instances(prev, x.0) > 0 {
                            lemma_instances_zero_absent(prev, x.0);
                            let m = choose|m: int| 0 <= m < prev.len() && prev[m].0 == x.0;
                            assert(sv[m].0 == x.0);
                            let i = choose|i: int|
                                0 <= i < old_entries.len() && (#[trigger] old_entries[i].name@) == sv[m].0;
                        }
                    }
                    assert(readable_instances(prev, x.0) == 0) by {
                        lemma_instances_bound(prev, x.0);
                    }
                    assert(working_set_total(prev, x.0) == 0) by {
                        lemma_total_zero(prev, x.0);
                    }
                }
                entries.insert(pos, fresh);
                proof {
                    assert forall|i: int, j: int|
                        0 <= i < j < entries@.len() implies lex_lt(
                        #[trigger] entries@[i].name@,
                        #[trigger] entries@[j].name@,
                    ) by {
                        if j < pos {
                            assert(entries@[i] == old_entries[i]);
                            assert(entries@[j] == old_entries[j]);
                            assert(lex_lt(old_entries[i].name@, old_entries[j].name@));
                        } else if j == pos {
                            assert(entries@[i] == old_entries[i]);
                            assert(entries@[j].name@ == x.0);
                            assert(lex_lt(old_entries[i].name@, x.0));
                        } else if i < pos {
                            assert(entries@[i] == old_entries[i]);
                            assert(entries@[j] == old_entries[j - 1]);
                            assert(lex_lt(old_entries[i].name@, x.0));
                            if j - 1 == pos {
                                lemma_lex_lt_transitive(old_entries[i].name@, x.0, old_entries[j - 1].name@);
                            } else {
                                assert(lex_lt(old_entries[pos as int].name@, old_entries[j - 1].name@));
                                lemma_lex_lt_transitive(x.0, old_entries[pos as int].name@, old_entries[j - 1].name@);
                                lemma_lex_lt_transitive(old_entries[i].name@, x.0, old_entries[j - 1].name@);
                            }
                        } else if i == pos {
                            assert(entries@[j] == old_entries[j - 1]);
                            assert(entries@[i].name@ == x.0);
                            if j - 1 > pos {
                                assert(lex_lt(old_entries[pos as int].name@, old_entries[j - 1].name@));
                                lemma_lex_lt_transitive(x.0, old_entries[pos as int].name@, old_entries[j - 1].name@);
                            }
                        } else {
                            assert(entries@[i] == old_entries[i - 1]);
                            assert(entries@[j] == old_entries[j - 1]);
                            assert(lex_lt(old_entries[i - 1].name@, old_entries[j - 1].name@));
                        }
                    }
                    assert forall|i: int| 0 <= i < entries@.len() implies picker_lists(
                        #[trigger] entries@[i].name@,
                        sn,
                        ex,
                    ) && instances(cur, entries@[i].name@) > 0 && entry_matches(entries@[i], cur) by {
                        if i < pos {
                            assert(entries@[i] == old_entries[i]);
                            assert(old_entries[i].name@ != x.0);
                            lemma_counts_other(prev, x, entries@[i].name@);
                        } else if i > pos {
                            assert(entries@[i] == old_entries[i - 1]);
                            assert(old_entries[i - 1].name@ != x.0);
                            lemma_counts_other(prev, x, entries@[i].name@);
                        } else {
                            assert(entries@[i].name@ == x.0);
                        }
                    }
                    assert forall|m: int|
                        0 <= m < k + 1 && picker_lists(#[trigger] sv[m].0, sn, ex) implies exists|i: int|
                        0 <= i < entries@.len() && (#[trigger] entries@[i].name@) == sv[m].0 by {
                        if m == k {
                            assert(entries@[pos as int].name@ == sv[m].0);
                        } else {
                            let i = choose|i: int|
                                0 <= i < old_entries.len() && (#[trigger] old_entries[i].name@) == sv[m].0;
                            if i < pos {
                                assert(entries@[i] == old_entries[i]);
                                assert(entries@[i].name@ == sv[m].0);
                            } else {
                                assert(entries@[i + 1] == old_entries[i]);
                                assert(entries@[i + 1].name@ == sv[m].0);
                            }
                        }
                    }
                }
            }
            k += 1;
        }
    }
    proof {
        assert(sv.take(samples@.len() as int) =~= sv);
    }
    entries
}

proof fn lemma_instances_zero_absent(s: Seq<(Seq<char>, Option<u64>)>, n: Seq<char>)
    requires
        instances(s, n) > 0,
    ensures
        exists|m: int| 0 <= m < s.len() && s[m].0 == n,
    decreases s.len(),
{
    if s.last().0 == n {
        assert(s[s.len() - 1].0 == n);
    } else {
        lemma_instances_zero_absent(s.drop_last(), n);
        let m = choose|m: int| 0 <= m < s.len() - 1 && s.drop_last()[m].0 == n;
        assert(s[m].0 == n);
    }
}

proof fn lemma_total_zero(s: Seq<(Seq<char>, Option<u64>)>, n: Seq<char>)
    requires
        instances(s, n) == 0,
    ensures
        working_set_total(s, n) == 0,
    decreases s.len(),
{
    if s.len() > 0 {
        lemma_total_zero(s.drop_last(), n);
    }
}

} // verus!

verus! {

// ---------------------------------------------------------------------------
// Launch specifications
// ---------------------------------------------------------------------------

/// How to start another instance of this program.
#[derive(Clone, Debug, PartialEq, Eq)]
pub struct InstanceLaunchSpec {
    pub exe: String,
    pub args: Vec<String>,
}

/// Why no launch specification could be made.
#[derive(Clone, Copy, Debug, PartialEq, Eq, Structural)]
pub enum LaunchError {
    /// The path of the running executable is not known.
    CurrentExeUnavailable,
}

pub open spec fn launch_args_view(args: Seq<String>) -> Seq<Seq<char>> {
    args.map_values(|a: String| a@)
}

/// The specification for an executable path and arguments.
pub fn launch_spec_for_path(exe: &str, args: &[&str]) -> (r: InstanceLaunchSpec)
    ensures
        r.exe@ == exe@,
        launch_args_view(r.args@) == crate::text::str_views(args@),
{
    let mut out: Vec<String> = Vec::new();
    let mut i: usize = 0;
    while i < args.len()
        invariant
            i <= args@.len(),
            out@.len() == i,
            launch_args_view(out@) == crate::text::str_views(args@).take(i as int),
        decreases args@.len() - i,
    {
        let a = String::from_str(args[i]);
        assert(a@ == args@[i as int]@);
        out.push(a);
        assert(out@[i as int]@ == crate::text::str_views(args@)[i as int]);
        i += 1;
        assert(launch_args_view(out@) =~= crate::text::str_views(args@).take(i as int));
    }
    assert(crate::text::str_views(args@).take(args@.len() as int) =~= crate::text::str_views(args@));
    InstanceLaunchSpec { exe: String::from_str(exe), args: out }
}

/// The tray host: this executable with the startup flag.
pub fn tray_instance_launch_spec(current_exe: Option<&str>) -> (r: Result<
    InstanceLaunchSpec,
    LaunchError,
>)
    ensures
        current_exe is None ==> r == Err::<InstanceLaunchSpec, LaunchError>(
            LaunchError::CurrentExeUnavailable,
        ),
        current_exe matches Some(exe) ==> (r matches Ok(spec) && spec.exe@ == exe@
            && launch_args_view(spec.args@) == seq![crate::win32::startup::startup_flag()]),
{
    match current_exe {
        None => Err(LaunchError::CurrentExeUnavailable),
        Some(exe) => {
            let mut args: Vec<String> = Vec::new();
            let flag = String::from_str(crate::win32::startup::STARTUP_ARG);
            proof {
                reveal_strlit("--startup");
                assert(flag@ =~= crate::win32::startup::startup_flag());
            }
            args.push(flag);
            proof {
                assert(args@[0]@ == crate::win32::startup::startup_flag());
                assert(launch_args_view(args@) =~= seq![crate::win32::startup::startup_flag()]);
            }
            Ok(InstanceLaunchSpec { exe: String::from_str(exe), args })
        },
    }
}

/// The GUI: this executable without arguments.
pub fn gui_instance_launch_spec(current_exe: Option<&str>) -> (r: Result<
    InstanceLaunchSpec,
    LaunchError,
>)
    ensures
        current_exe is None ==> r == Err::<InstanceLaunchSpec, LaunchError>(
            LaunchError::CurrentExeUnavailable,
        ),
        current_exe matches Some(exe) ==> (r matches Ok(spec) && spec.exe@ == exe@ && spec.args@.len()
            == 0),
{
    match current_exe {
        None => Err(LaunchError::CurrentExeUnavailable),
        Some(exe) => Ok(InstanceLaunchSpec { exe: String::from_str(exe), args: Vec::new() }),
    }
}

// ---------------------------------------------------------------------------
// Driving the GUI from the tray host
// ---------------------------------------------------------------------------

/// The GUI process as it registered itself with the tray host.
#[derive(Clone, Copy, Debug, PartialEq, Eq, Structural)]
pub struct GuiSession {
    pub hwnd: isize,
    pub pid: u32,
}

/// What the tray host has learnt about the GUI; `None` where it has not asked yet.
#[derive(Clone, Copy, Debug, PartialEq, Eq, Structural)]
pub struct GuiFacts {
    /// The registered GUI session, if any.
    pub session: Option<Option<GuiSession>>,
    /// The registered window is a visible window.
    pub hwnd_visible: Option<bool>,
    /// A GUI process holds the GUI mutex.
    pub gui_running: Option<bool>,
    /// The GUI window, found by title, is visible.
    pub gui_window_visible: Option<bool>,
}

impl GuiFacts {
    pub fn unknown() -> (r: GuiFacts)
        ensures
            r.session is None && r.hwnd_visible is None && r.gui_running is None
                && r.gui_window_visible is None,
    {
        GuiFacts { session: None, hwnd_visible: None, gui_running: None, gui_window_visible: None }
    }
}

/// A question the tray host asks the system.
#[derive(Clone, Copy, Debug, PartialEq, Eq, Structural)]
pub enum GuiQuery {
    Session,
    HwndVisible(isize),
    GuiRunning,
    GuiWindowVisible,
}

/// The next thing to do about the GUI.
#[derive(Clone, Copy, Debug, PartialEq, Eq, Structural)]
pub enum GuiStep {
    Ask(GuiQuery),
    /// Post `WM_CLOSE` to the registered window.
    RequestHwndClose(isize),
    /// Show and focus the registered window.
    ActivateHwnd(isize),
    /// Post `WM_CLOSE` to the GUI window found by title.
    RequestGuiClose,
    /// Show and focus the GUI window found by title.
    ActivateGuiWindow,
    /// Start a GUI process.
    SpawnGui,
}

/// Toggle the GUI window: close it when it shows, bring it back when it is
/// hidden, start a GUI when none runs.
pub fn toggle_gui_window(facts: &GuiFacts) -> (r: GuiStep)
    ensures
        facts.session is None ==> r == GuiStep::Ask(GuiQuery::Session),
        facts.session matches Some(Some(s)) ==> match facts.hwnd_visible {
            None => r == GuiStep::Ask(GuiQuery::HwndVisible(s.hwnd)),
            Some(true) => r == GuiStep::RequestHwndClose(s.hwnd),
            Some(false) => r == GuiStep::ActivateHwnd(s.hwnd),
        },
        facts.session == Some(None::<GuiSession>) ==> match facts.gui_running {
            None => r == GuiStep::Ask(GuiQuery::GuiRunning),
            Some(false) => r == GuiStep::SpawnGui,
            Some(true) => match facts.gui_window_visible {
                None => r == GuiStep::Ask(GuiQuery::GuiWindowVisible),
                Some(true) => r == GuiStep::RequestGuiClose,
                Some(false) => r == GuiStep::ActivateGuiWindow,
            },
        },
{
    match facts.session {
        None => GuiStep::Ask(GuiQuery::Session),
        Some(Some(s)) => match facts.hwnd_visible {
            None => GuiStep::Ask(GuiQuery::HwndVisible(s.hwnd)),
            Some(true) => GuiStep::RequestHwndClose(s.hwnd),
            Some(false) => GuiStep::ActivateHwnd(s.hwnd),
        },
        Some(None) => match facts.gui_running {
            None => GuiStep::Ask(GuiQuery::GuiRunning),
            Some(false) => GuiStep::SpawnGui,
            Some(true) => match facts.gui_window_visible {
                None => GuiStep::Ask(GuiQuery::GuiWindowVisible),
                Some(true) => GuiStep::RequestGuiClose,
                Some(false) => GuiStep::ActivateGuiWindow,
            },
        },
    }
}

/// Activate an existing GUI window or start a GUI process.
pub fn activate_or_spawn_gui(facts: &GuiFacts) -> (r: GuiStep)
    ensures
        facts.session is None ==> r == GuiStep::Ask(GuiQuery::Session),
        facts.session matches Some(Some(s)) ==> r == GuiStep::ActivateHwnd(s.hwnd),
        facts.session == Some(None::<GuiSession>) ==> match facts.gui_running {
            None => r == GuiStep::Ask(GuiQuery::GuiRunning),
            Some(true) => r == GuiStep::ActivateGuiWindow,
            Some(false) => r == GuiStep::SpawnGui,
        },
{
    match facts.session {
        None => GuiStep::Ask(GuiQuery::Session),
        Some(Some(s)) => GuiStep::ActivateHwnd(s.hwnd),
        Some(None) => match facts.gui_running {
            None => GuiStep::Ask(GuiQuery::GuiRunning),
            Some(true) => GuiStep::ActivateGuiWindow,
            Some(false) => GuiStep::SpawnGui,
        },
    }
}

/// The questions answered so far.
pub open spec fn facts_known(f: GuiFacts) -> nat {
    (if f.session is Some { 1nat } else { 0nat }) + (if f.hwnd_visible is Some {
        1nat
    } else {
        0nat
    }) + (if f.gui_running is Some { 1nat } else { 0nat }) + (if f.gui_window_visible is Some {
        1nat
    } else {
        0nat
    })
}

/// Recording the answer to the question a GUI command asks.
pub open spec fn answer(f: GuiFacts, q: GuiQuery, a: Option<GuiSession>, b: bool) -> GuiFacts {
    match q {
        GuiQuery::Session => GuiFacts { session: Some(a), ..f },
        GuiQuery::HwndVisible(_) => GuiFacts { hwnd_visible: Some(b), ..f },
        GuiQuery::GuiRunning => GuiFacts { gui_running: Some(b), ..f },
        GuiQuery::GuiWindowVisible => GuiFacts { gui_window_visible: Some(b), ..f },
    }
}

/// A GUI command only asks what it does not know yet, so every answer adds
/// a fact and a command reaches an action after at most four questions;
/// and a GUI is only started when none is registered and none runs.
pub proof fn lemma_toggle_progress(f: GuiFacts, q: GuiQuery, a: Option<GuiSession>, b: bool)
    requires
        toggle_gui_spec(f) == GuiStep::Ask(q),
    ensures
        facts_known(answer(f, q, a, b)) == facts_known(f) + 1,
        facts_known(f) < 4,
{
}

/// The step `toggle_gui_window` takes, as a function of the facts.
pub open spec fn toggle_gui_spec(facts: GuiFacts) -> GuiStep {
    match facts.session {
        None => GuiStep::Ask(GuiQuery::Session),
        Some(Some(s)) => match facts.hwnd_visible {
            None => GuiStep::Ask(GuiQuery::HwndVisible(s.hwnd)),
            Some(true) => GuiStep::RequestHwndClose(s.hwnd),
            Some(false) => GuiStep::ActivateHwnd(s.hwnd),
        },
        Some(None) => match facts.gui_running {
            None => GuiStep::Ask(GuiQuery::GuiRunning),
            Some(false) => GuiStep::SpawnGui,
            Some(true) => match facts.gui_window_visible {
                None => GuiStep::Ask(GuiQuery::GuiWindowVisible),
                Some(true) => GuiStep::RequestGuiClose,
                Some(false) => GuiStep::ActivateGuiWindow,
            },
        },
    }
}

/// A GUI is started only when no session is registered and no GUI process runs.
pub proof fn lemma_spawn_only_without_gui(f: GuiFacts)
    requires
        toggle_gui_spec(f) == GuiStep::SpawnGui,
    ensures
        f.session == Some(None::<GuiSession>),
        f.gui_running == Some(false),
{
}

/// The log line for an action of `toggle_gui_window` that did not take effect.
pub fn toggle_failure_log(step: GuiStep) -> (r: Option<&'static str>)
    ensures
        (step is RequestHwndClose || step is RequestGuiClose) ==> (r matches Some(m) && m@
            == "[tray] failed to request GUI close"@),
        (step is ActivateHwnd || step is ActivateGuiWindow) ==> (r matches Some(m) && m@
            == "[tray] failed to activate hidden GUI window"@),
        !(step is RequestHwndClose || step is RequestGuiClose || step is ActivateHwnd
            || step is ActivateGuiWindow) ==> r is None,
{
    match step {
        GuiStep::RequestHwndClose(_) | GuiStep::RequestGuiClose => Some(
            "[tray] failed to request GUI close",
        ),
        GuiStep::ActivateHwnd(_) | GuiStep::ActivateGuiWindow => Some(
            "[tray] failed to activate hidden GUI window",
        ),
        _ => None,
    }
}

/// The log line for an action of `activate_or_spawn_gui` that did not take effect.
pub fn activate_failure_log(step: GuiStep) -> (r: Option<&'static str>)
    ensures
        step is ActivateHwnd ==> (r matches Some(m) && m@
            == "[tray] registered GUI hwnd is no longer valid"@),
        step is ActivateGuiWindow ==> (r matches Some(m) && m@
            == "[tray] GUI running but window not registered yet"@),
        !(step is ActivateHwnd || step is ActivateGuiWindow) ==> r is None,
{
    match step {
        GuiStep::ActivateHwnd(_) => Some("[tray] registered GUI hwnd is no longer valid"),
        GuiStep::ActivateGuiWindow => Some("[tray] GUI running but window not registered yet"),
        _ => None,
    }
}

// ---------------------------------------------------------------------------
// Starting the tray host
// ---------------------------------------------------------------------------

/// What a launcher has learnt while making sure the tray host runs.
#[derive(Clone, Copy, Debug, PartialEq, Eq, Structural)]
pub struct TrayStartFacts {
    /// The tray mutex is held.
    pub tray_running: Option<bool>,
    /// Starting the tray host succeeded.
    pub spawned: Option<bool>,
    /// The tray host signalled that it is ready.
    pub ready_signal: Option<bool>,
    /// The tray mutex appeared while waiting for it.
    pub host_appeared: Option<bool>,
}

/// Why the tray host is not running.
#[derive(Clone, Copy, Debug, PartialEq, Eq, Structural)]
pub enum TrayStartError {
    /// The tray process could not be started.
    SpawnFailed,
    /// "tray host failed to start within timeout"
    Timeout,
}

/// The next thing to do to have a tray host.
#[derive(Clone, Copy, Debug, PartialEq, Eq, Structural)]
pub enum TrayStartStep {
    /// Probe the tray mutex.
    CheckTrayRunning,
    /// Start the tray host (`tray_instance_launch_spec`).
    SpawnTray,
    /// Wait for the tray host's ready signal.
    AwaitReadySignal,
    /// Poll for the tray mutex (`wait_for_tray_host(TRAY_WAIT_MS)`).
    WaitForTrayHost,
    /// The tray host runs.
    Ready,
    /// The tray host could not be had.
    Failed(TrayStartError),
}

impl TrayStartFacts {
    pub fn unknown() -> (r: TrayStartFacts)
        ensures
            r.tray_running is None && r.spawned is None && r.ready_signal is None
                && r.host_appeared is None,
    {
        TrayStartFacts { tray_running: None, spawned: None, ready_signal: None, host_appeared: None }
    }
}

/// Ensure the persistent tray-host process is running: nothing to do when it
/// runs; otherwise start it and wait for its ready signal, then for its mutex.
pub fn ensure_tray_host_running(facts: &TrayStartFacts) -> (r: TrayStartStep)
    ensures
        facts.tray_running is None ==> r == TrayStartStep::CheckTrayRunning,
        facts.tray_running == Some(true) ==> r == TrayStartStep::Ready,
        facts.tray_running == Some(false) ==> match facts.spawned {
            None => r == TrayStartStep::SpawnTray,
            Some(false) => r == TrayStartStep::Failed(TrayStartError::SpawnFailed),
            Some(true) => match facts.ready_signal {
                None => r == TrayStartStep::AwaitReadySignal,
                Some(true) => r == TrayStartStep::Ready,
                Some(false) => match facts.host_appeared {
                    None => r == TrayStartStep::WaitForTrayHost,
                    Some(true) => r == TrayStartStep::Ready,
                    Some(false) => r == TrayStartStep::Failed(TrayStartError::Timeout),
                },
            },
        },
{
    match facts.tray_running {
        None => TrayStartStep::CheckTrayRunning,
        Some(true) => TrayStartStep::Ready,
        Some(false) => match facts.spawned {
            None => TrayStartStep::SpawnTray,
            Some(false) => TrayStartStep::Failed(TrayStartError::SpawnFailed),
            Some(true) => match facts.ready_signal {
                None => TrayStartStep::AwaitReadySignal,
                Some(true) => TrayStartStep::Ready,
                Some(false) => match facts.host_appeared {
                    None => TrayStartStep::WaitForTrayHost,
                    Some(true) => TrayStartStep::Ready,
                    Some(false) => TrayStartStep::Failed(TrayStartError::Timeout),
                },
            },
        },
    }
}

// ---------------------------------------------------------------------------
// Shutting the GUI down
// ---------------------------------------------------------------------------

/// What the tray host has learnt and done while shutting the GUI down.
#[derive(Clone, Copy, Debug, PartialEq, Eq, Structural)]
pub struct ShutdownFacts {
    pub session: Option<Option<GuiSession>>,
    /// A GUI process holds the GUI mutex (asked only without a session).
    pub gui_running: Option<bool>,
    /// `WM_CLOSE` has been posted.
    pub close_requested: bool,
    /// The GUI mutex disappeared within `GUI_EXIT_WAIT_MS`.
    pub exited: Option<bool>,
    /// The GUI mutex is still held or the GUI process is still alive.
    pub still_there: Option<bool>,
    /// Termination of the GUI process has been tried.
    pub terminated: bool,
}

/// The next thing to do to shut the GUI down.
#[derive(Clone, Copy, Debug, PartialEq, Eq, Structural)]
pub enum ShutdownStep {
    AskSession,
    AskGuiRunning,
    /// Post `WM_CLOSE` to the registered window.
    RequestHwndClose(isize),
    /// Post `WM_CLOSE` to the GUI window found by title.
    RequestGuiClose,
    /// Poll until the GUI mutex disappears (`wait_for_gui_exit(GUI_EXIT_WAIT_MS)`).
    WaitForGuiExit,
    /// Whether the GUI mutex is held or this process is alive.
    AskStillThere(u32),
    /// Terminate this process (log a failure).
    Terminate(u32),
    /// Forget the registered session, then stop.
    ClearSessionAndFinish,
    /// Log that the GUI did not exit in time, then stop.
    LogNotExitedAndFinish,
    Finish,
}

impl ShutdownFacts {
    pub fn unknown() -> (r: ShutdownFacts)
        ensures
            r.session is None && r.gui_running is None && !r.close_requested && r.exited is None
                && r.still_there is None && !r.terminated,
    {
        ShutdownFacts {
            session: None,
            gui_running: None,
            close_requested: false,
            exited: None,
            still_there: None,
            terminated: false,
        }
    }
}

/// Ask a running GUI process to exit before the tray host shuts down: close
/// its window and wait; a registered GUI that does not go is terminated and
/// its session forgotten.
pub fn request_gui_shutdown(facts: &ShutdownFacts) -> (r: ShutdownStep)
    ensures
        facts.session is None ==> r == ShutdownStep::AskSession,
        facts.session matches Some(Some(s)) ==> {
            if !facts.close_requested {
                r == ShutdownStep::RequestHwndClose(s.hwnd)
            } else {
                match facts.exited {
                    None => r == ShutdownStep::WaitForGuiExit,
                    Some(true) => r == ShutdownStep::ClearSessionAndFinish,
                    Some(false) => match facts.still_there {
                        None => r == ShutdownStep::AskStillThere(s.pid),
                        Some(true) => if facts.terminated {
                            r == ShutdownStep::ClearSessionAndFinish
                        } else {
                            r == ShutdownStep::Terminate(s.pid)
                        },
                        Some(false) => r == ShutdownStep::ClearSessionAndFinish,
                    },
                }
            }
        },
        facts.session == Some(None::<GuiSession>) ==> match facts.gui_running {
            None => r == ShutdownStep::AskGuiRunning,
            Some(false) => r == ShutdownStep::Finish,
            Some(true) => if !facts.close_requested {
                r == ShutdownStep::RequestGuiClose
            } else {
                match facts.exited {
                    None => r == ShutdownStep::WaitForGuiExit,
                    Some(true) => r == ShutdownStep::Finish,
                    Some(false) => r == ShutdownStep::LogNotExitedAndFinish,
                }
            },
        },
{
    match facts.session {
        None => ShutdownStep::AskSession,
        Some(Some(s)) => {
            if !facts.close_requested {
                ShutdownStep::RequestHwndClose(s.hwnd)
            } else {
                match facts.exited {
                    None => ShutdownStep::WaitForGuiExit,
                    Some(true) => ShutdownStep::ClearSessionAndFinish,
                    Some(false) => match facts.still_there {
                        None => ShutdownStep::AskStillThere(s.pid),
                        Some(true) => if facts.terminated {
                            ShutdownStep::ClearSessionAndFinish
                        } else {
                            ShutdownStep::Terminate(s.pid)
                        },
                        Some(false) => ShutdownStep::ClearSessionAndFinish,
                    },
                }
            }
        },
        Some(None) => match facts.gui_running {
            None => ShutdownStep::AskGuiRunning,
            Some(false) => ShutdownStep::Finish,
            Some(true) => if !facts.close_requested {
                ShutdownStep::RequestGuiClose
            } else {
                match facts.exited {
                    None => ShutdownStep::WaitForGuiExit,
                    Some(true) => ShutdownStep::Finish,
                    Some(false) => ShutdownStep::LogNotExitedAndFinish,
                }
            },
        },
    }
}

// ---------------------------------------------------------------------------
// Emptying working sets
// ---------------------------------------------------------------------------

/// `ERROR_ACCESS_DENIED`
pub const ERROR_ACCESS_DENIED: u32 = 5;

/// A failed `EmptyWorkingSet` is reported unless access was denied
/// (protected processes are expected to refuse).
pub fn empty_working_set_error_reported(last_error: u32) -> (r: bool)
    ensures
        r == (last_error != ERROR_ACCESS_DENIED),
{
    last_error != ERROR_ACCESS_DENIED
}

/// "Working Set per-process errors: "
pub open spec fn working_set_errors_prefix() -> Seq<char> {
    "Working Set per-process errors: "@
}

/// The outcome of emptying every working set: success without reported
/// errors, else one message listing them, separated by `, `.
pub fn empty_working_sets_outcome(errors: &[String]) -> (r: Result<(), String>)
    ensures
        errors@.len() == 0 ==> r is Ok,
        errors@.len() > 0 ==> (r matches Err(m) && m@ == working_set_errors_prefix()
            + crate::text::join(crate::text::string_views(errors@), ", "@)),
{
    if errors.len() == 0 {
        return Ok(());
    }
    let mut s = String::from_str("Working Set per-process errors: ");
    let joined = crate::text::join_strings(errors, ", ");
    s.append(joined.as_str());
    Err(s)
}

} // verus!
