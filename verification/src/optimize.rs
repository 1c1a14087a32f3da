//! The memory areas the cleaner can purge and the order in which it purges them.
use vstd::prelude::*;

use crate::text::push_char;
use crate::win32::nt::SystemMemoryListCommand;
use crate::win32::wide::{wide_null, wide_null_spec};

verus! {

/// A set of memory areas, one bit per area.
#[derive(Clone, Copy, Debug, PartialEq, Eq, Structural)]
pub struct MemoryAreas {
    bits: u32,
}

impl View for MemoryAreas {
    type V = u32;

    closed spec fn view(&self) -> u32 {
        self.bits
    }
}

/// Bit of the process working sets.
pub const WORKING_SET_BIT: u32 = 1;

/// Bit of the system file cache.
pub const SYSTEM_FILE_CACHE_BIT: u32 = 2;

/// Bit of the modified page list.
pub const MODIFIED_PAGE_LIST_BIT: u32 = 4;

/// Bit of the standby list.
pub const STANDBY_LIST_BIT: u32 = 8;

/// Bit of the low-priority standby list.
pub const STANDBY_LIST_LOW_PRIORITY_BIT: u32 = 16;

/// Bit of the combined page list.
pub const COMBINED_PAGE_LIST_BIT: u32 = 32;

/// Bit of the modified file cache of the volumes.
pub const MODIFIED_FILE_CACHE_BIT: u32 = 64;

/// Bit of the registry cache.
pub const REGISTRY_CACHE_BIT: u32 = 128;

/// Every defined bit.
pub const ALL_AREA_BITS: u32 = 255;

/// The areas purged by default: all but the low-priority standby list and the registry cache.
pub const DEFAULT_AREA_BITS: u32 = 111;

impl MemoryAreas {
    pub fn empty() -> (r: MemoryAreas)
        ensures
            r@ == 0,
    {
        MemoryAreas { bits: 0 }
    }

    pub fn all() -> (r: MemoryAreas)
        ensures
            r@ == ALL_AREA_BITS,
    {
        MemoryAreas { bits: ALL_AREA_BITS }
    }

    pub fn working_set() -> (r: MemoryAreas)
        ensures
            r@ == WORKING_SET_BIT,
    {
        MemoryAreas { bits: WORKING_SET_BIT }
    }

    pub fn system_file_cache() -> (r: MemoryAreas)
        ensures
            r@ == SYSTEM_FILE_CACHE_BIT,
    {
        MemoryAreas { bits: SYSTEM_FILE_CACHE_BIT }
    }

    pub fn modified_page_list() -> (r: MemoryAreas)
        ensures
            r@ == MODIFIED_PAGE_LIST_BIT,
    {
        MemoryAreas { bits: MODIFIED_PAGE_LIST_BIT }
    }

    pub fn standby_list() -> (r: MemoryAreas)
        ensures
            r@ == STANDBY_LIST_BIT,
    {
        MemoryAreas { bits: STANDBY_LIST_BIT }
    }

    pub fn standby_list_low_priority() -> (r: MemoryAreas)
        ensures
            r@ == STANDBY_LIST_LOW_PRIORITY_BIT,
    {
        MemoryAreas { bits: STANDBY_LIST_LOW_PRIORITY_BIT }
    }

    pub fn combined_page_list() -> (r: MemoryAreas)
        ensures
            r@ == COMBINED_PAGE_LIST_BIT,
    {
        MemoryAreas { bits: COMBINED_PAGE_LIST_BIT }
    }

    pub fn modified_file_cache() -> (r: MemoryAreas)
        ensures
            r@ == MODIFIED_FILE_CACHE_BIT,
    {
        MemoryAreas { bits: MODIFIED_FILE_CACHE_BIT }
    }

    pub fn registry_cache() -> (r: MemoryAreas)
        ensures
            r@ == REGISTRY_CACHE_BIT,
    {
        MemoryAreas { bits: REGISTRY_CACHE_BIT }
    }

    /// The default selection.
    pub fn default_areas() -> (r: MemoryAreas)
        ensures
            r@ == DEFAULT_AREA_BITS,
    {
        MemoryAreas { bits: DEFAULT_AREA_BITS }
    }

    /// The set with exactly these bits, known or not.
    pub fn from_bits_retain(bits: u32) -> (r: MemoryAreas)
        ensures
            r@ == bits,
    {
        MemoryAreas { bits }
    }

    /// The set of the known areas among these bits.
    pub fn from_bits_truncate(bits: u32) -> (r: MemoryAreas)
        ensures
            r@ == bits & ALL_AREA_BITS,
    {
        MemoryAreas { bits: bits & ALL_AREA_BITS }
    }

    pub fn bits(&self) -> (r: u32)
        ensures
            r == self@,
    {
        self.bits
    }

    pub fn is_empty(&self) -> (r: bool)
        ensures
            r == (self@ == 0),
    {
        self.bits == 0
    }

    /// Every area of `other` is in `self`.
    pub fn contains(&self, other: MemoryAreas) -> (r: bool)
        ensures
            r == (self@ & other@ == other@),
    {
        self.bits & other.bits == other.bits
    }

    pub fn union(self, other: MemoryAreas) -> (r: MemoryAreas)
        ensures
            r@ == self@ | other@,
    {
        MemoryAreas { bits: self.bits | other.bits }
    }

    /// The display name of a single area ("未知区域" for anything else).
    pub fn label(self) -> (r: &'static str)
        ensures
            r@ == area_label(self@),
    {
        proof {
            reveal_strlit("工作集");
            reveal_strlit("系统文件缓存");
            reveal_strlit("已修改页面");
            reveal_strlit("待机列表");
            reveal_strlit("待机列表(低优先级)");
            reveal_strlit("合并页面");
            reveal_strlit("已修改文件");
            reveal_strlit("注册表缓存");
            reveal_strlit("未知区域");
        }
        if self.bits == WORKING_SET_BIT {
            "工作集"
        } else if self.bits == SYSTEM_FILE_CACHE_BIT {
            "系统文件缓存"
        } else if self.bits == MODIFIED_PAGE_LIST_BIT {
            "已修改页面"
        } else if self.bits == STANDBY_LIST_BIT {
            "待机列表"
        } else if self.bits == STANDBY_LIST_LOW_PRIORITY_BIT {
            "待机列表(低优先级)"
        } else if self.bits == COMBINED_PAGE_LIST_BIT {
            "合并页面"
        } else if self.bits == MODIFIED_FILE_CACHE_BIT {
            "已修改文件"
        } else if self.bits == REGISTRY_CACHE_BIT {
            "注册表缓存"
        } else {
            "未知区域"
        }
    }
}

impl vstd::std_specs::ops::BitOrSpecImpl for MemoryAreas {
    open spec fn obeys_bitor_spec() -> bool {
        true
    }

    open spec fn bitor_req(self, rhs: MemoryAreas) -> bool {
        true
    }

    open spec fn bitor_spec(self, rhs: MemoryAreas) -> MemoryAreas {
        self.union_spec(rhs)
    }
}

impl MemoryAreas {
    pub closed spec fn union_spec(self, rhs: MemoryAreas) -> MemoryAreas {
        MemoryAreas { bits: self.bits | rhs.bits }
    }

    pub broadcast proof fn lemma_union_spec_view(a: MemoryAreas, b: MemoryAreas)
        ensures
            #[trigger] a.union_spec(b)@ == a@ | b@,
    {
    }
}

impl core::ops::BitOr for MemoryAreas {
    type Output = MemoryAreas;

    fn bitor(self, rhs: MemoryAreas) -> (r: MemoryAreas) {
        MemoryAreas { bits: self.bits | rhs.bits }
    }
}

/// The display name of an area given by its bits.
pub open spec fn area_label(bits: u32) -> Seq<char> {
    if bits == WORKING_SET_BIT {
        seq!['工', '作', '集']
    } else if bits == SYSTEM_FILE_CACHE_BIT {
        seq!['系', '统', '文', '件', '缓', '存']
    } else if bits == MODIFIED_PAGE_LIST_BIT {
        seq!['已', '修', '改', '页', '面']
    } else if bits == STANDBY_LIST_BIT {
        seq!['待', '机', '列', '表']
    } else if bits == STANDBY_LIST_LOW_PRIORITY_BIT {
        seq!['待', '机', '列', '表', '(', '低', '优', '先', '级', ')']
    } else if bits == COMBINED_PAGE_LIST_BIT {
        seq!['合', '并', '页', '面']
    } else if bits == MODIFIED_FILE_CACHE_BIT {
        seq!['已', '修', '改', '文', '件']
    } else if bits == REGISTRY_CACHE_BIT {
        seq!['注', '册', '表', '缓', '存']
    } else {
        seq!['未', '知', '区', '域']
    }
}

/// The purge steps in the order the cleaner runs them.
pub open spec fn step_order() -> Seq<u32> {
    seq![
        WORKING_SET_BIT,
        SYSTEM_FILE_CACHE_BIT,
        MODIFIED_PAGE_LIST_BIT,
        STANDBY_LIST_BIT,
        STANDBY_LIST_LOW_PRIORITY_BIT,
        COMBINED_PAGE_LIST_BIT,
        MODIFIED_FILE_CACHE_BIT,
        REGISTRY_CACHE_BIT,
    ]
}

/// The steps of `steps` whose area lies within `areas`, in order.
pub open spec fn selected_steps(areas: u32, steps: Seq<u32>) -> Seq<u32>
    decreases steps.len(),
{
    if steps.len() == 0 {
        seq![]
    } else {
        let before = selected_steps(areas, steps.drop_last());
        if areas & steps.last() == steps.last() {
            before.push(steps.last())
        } else {
            before
        }
    }
}

/// One step of a plan: its label and its area.
pub open spec fn plan_entry_view(e: (&'static str, MemoryAreas)) -> (Seq<char>, u32) {
    (e.0@, e.1@)
}

pub open spec fn plan_view(plan: Seq<(&'static str, MemoryAreas)>) -> Seq<(Seq<char>, u32)> {
    plan.map_values(|e: (&'static str, MemoryAreas)| plan_entry_view(e))
}

/// The plan for a selection: the selected steps in run order, each with its label.
pub open spec fn step_plan_spec(areas: u32) -> Seq<(Seq<char>, u32)> {
    selected_steps(areas, step_order()).map_values(|b: u32| (area_label(b), b))
}

/// Why no plan could be made.
#[derive(Clone, Copy, Debug, PartialEq, Eq, Structural)]
pub enum StepPlanError {
    NoAreasSelected,
}

impl StepPlanError {
    pub fn message(&self) -> (r: &'static str)
        ensures
            r@ == seq![
                'n', 'o', ' ', 'm', 'e', 'm', 'o', 'r', 'y', ' ', 'a', 'r', 'e', 'a', 's', ' ',
                's', 'e', 'l', 'e', 'c', 't', 'e', 'd',
            ],
    {
        proof {
            reveal_strlit("no memory areas selected");
        }
        "no memory areas selected"
    }
}

fn add_step_if_selected(
    plan: &mut Vec<(&'static str, MemoryAreas)>,
    areas: MemoryAreas,
    area: MemoryAreas,
    Ghost(steps): Ghost<Seq<u32>>,
)
    requires
        plan_view(old(plan)@) == step_plan_for(areas@, steps),
    ensures
        plan_view(final(plan)@) == step_plan_for(areas@, steps.push(area@)),
{
    proof {
        assert(steps.push(area@).drop_last() =~= steps);
    }
    if areas.contains(area) {
        let ghost before = plan@;
        plan.push((area.label(), area));
        proof {
            assert(plan_view(plan@) =~= plan_view(before).push((area_label(area@), area@)));
            assert(step_plan_for(areas@, steps.push(area@)) =~= step_plan_for(areas@, steps).push(
                (area_label(area@), area@),
            ));
        }
    }
}

/// The plan over a given list of steps.
pub open spec fn step_plan_for(areas: u32, steps: Seq<u32>) -> Seq<(Seq<char>, u32)> {
    selected_steps(areas, steps).map_values(|b: u32| (area_label(b), b))
}

/// The steps to run for a selection of areas, in the fixed run order; an
/// empty selection is refused.
pub fn step_plan(areas: MemoryAreas) -> (r: Result<Vec<(&'static str, MemoryAreas)>, StepPlanError>)
    ensures
        areas@ == 0 ==> r == Err::<Vec<(&'static str, MemoryAreas)>, StepPlanError>(
            StepPlanError::NoAreasSelected,
        ),
        areas@ != 0 ==> (r matches Ok(plan) && plan_view(plan@) == step_plan_spec(areas@)),
{
    if areas.is_empty() {
        return Err(StepPlanError::NoAreasSelected);
    }
    let mut plan: Vec<(&'static str, MemoryAreas)> = Vec::new();
    let ghost s = step_order();
    assert(plan_view(plan@) =~= step_plan_for(areas@, s.take(0)));
    add_step_if_selected(&mut plan, areas, MemoryAreas::working_set(), Ghost(s.take(0)));
    assert(s.take(0).push(s[0]) =~= s.take(1));
    add_step_if_selected(&mut plan, areas, MemoryAreas::system_file_cache(), Ghost(s.take(1)));
    assert(s.take(1).push(s[1]) =~= s.take(2));
    add_step_if_selected(&mut plan, areas, MemoryAreas::modified_page_list(), Ghost(s.take(2)));
    assert(s.take(2).push(s[2]) =~= s.take(3));
    add_step_if_selected(&mut plan, areas, MemoryAreas::standby_list(), Ghost(s.take(3)));
    assert(s.take(3).push(s[3]) =~= s.take(4));
    add_step_if_selected(
        &mut plan,
        areas,
        MemoryAreas::standby_list_low_priority(),
        Ghost(s.take(4)),
    );
    assert(s.take(4).push(s[4]) =~= s.take(5));
    add_step_if_selected(&mut plan, areas, MemoryAreas::combined_page_list(), Ghost(s.take(5)));
    assert(s.take(5).push(s[5]) =~= s.take(6));
    add_step_if_selected(&mut plan, areas, MemoryAreas::modified_file_cache(), Ghost(s.take(6)));
    assert(s.take(6).push(s[6]) =~= s.take(7));
    add_step_if_selected(&mut plan, areas, MemoryAreas::registry_cache(), Ghost(s.take(7)));
    assert(s.take(7).push(s[7]) =~= s);
    Ok(plan)
}

/// The memory-list command that purges the standby list (or its low-priority part).
pub fn standby_list_command(low_priority: bool) -> (r: SystemMemoryListCommand)
    ensures
        low_priority ==> r == SystemMemoryListCommand::PurgeLowPriorityStandbyList,
        !low_priority ==> r == SystemMemoryListCommand::PurgeStandbyList,
{
    if low_priority {
        SystemMemoryListCommand::PurgeLowPriorityStandbyList
    } else {
        SystemMemoryListCommand::PurgeStandbyList
    }
}

/// A purge of one of the kernel's memory lists: the command, the privilege
/// it needs, and the name used in error messages.
#[derive(Clone, Copy, Debug, PartialEq, Eq)]
pub struct PurgeRequest {
    pub command: SystemMemoryListCommand,
    pub privilege: &'static str,
    pub what: &'static str,
}

/// "SeProfileSingleProcessPrivilege"
pub open spec fn profile_privilege() -> Seq<char> {
    "SeProfileSingleProcessPrivilege"@
}

/// Empty the working sets of all processes.
pub fn optimize_working_set() -> (r: PurgeRequest)
    ensures
        r.command == SystemMemoryListCommand::EmptyWorkingSets,
        r.privilege@ == profile_privilege(),
        r.what@ == "Working Set"@,
{
    PurgeRequest {
        command: SystemMemoryListCommand::EmptyWorkingSets,
        privilege: "SeProfileSingleProcessPrivilege",
        what: "Working Set",
    }
}

/// Write out and empty the modified page list.
pub fn optimize_modified_page_list() -> (r: PurgeRequest)
    ensures
        r.command == SystemMemoryListCommand::FlushModifiedList,
        r.privilege@ == profile_privilege(),
        r.what@ == "Modified Page List"@,
{
    PurgeRequest {
        command: SystemMemoryListCommand::FlushModifiedList,
        privilege: "SeProfileSingleProcessPrivilege",
        what: "Modified Page List",
    }
}

/// Purge the standby list, or only its low-priority part.
pub fn optimize_standby_list(low_priority: bool) -> (r: PurgeRequest)
    ensures
        low_priority ==> r.command == SystemMemoryListCommand::PurgeLowPriorityStandbyList,
        !low_priority ==> r.command == SystemMemoryListCommand::PurgeStandbyList,
        r.privilege@ == profile_privilege(),
        r.what@ == "Standby List"@,
{
    PurgeRequest {
        command: standby_list_command(low_priority),
        privilege: "SeProfileSingleProcessPrivilege",
        what: "Standby List",
    }
}

/// `{:?}` of a drive letter list, e.g. `['C', 'D']`.
pub open spec fn drive_list_debug(drives: Seq<char>) -> Seq<char>
    decreases drives.len(),
{
    if drives.len() == 0 {
        seq!['[', ']']
    } else if drives.len() == 1 {
        seq!['[', '\'', drives[0], '\'', ']']
    } else {
        drive_list_debug(drives.drop_last()).drop_last() + seq![',', ' ', '\'', drives.last(), '\'', ']']
    }
}

/// "驱动 " + list + " 刷新失败"
pub open spec fn drive_failure_text(drives: Seq<char>) -> Seq<char> {
    seq!['驱', '动', ' '] + drive_list_debug(drives) + seq![' ', '刷', '新', '失', '败']
}

/// The outcome of flushing the modified file cache of every fixed drive: success
/// when no drive failed, else the message listing the failed drive letters.
pub fn optimize_modified_file_cache(failed: &[char]) -> (r: Result<(), String>)
    requires
        forall|i: int| 0 <= i < failed@.len() ==> 'A' <= #[trigger] failed@[i] <= 'Z',
    ensures
        failed@.len() == 0 ==> r is Ok,
        failed@.len() > 0 ==> (r matches Err(m) && m@ == drive_failure_text(failed@)),
{
    if failed.len() == 0 {
        return Ok(());
    }
    proof {
        reveal_strlit("驱动 [");
        reveal_strlit("'");
        reveal_strlit(", '");
        reveal_strlit("] 刷新失败");
    }
    let mut s = String::from_str("驱动 [");
    assert("'"@ =~= seq!['\'']);
    assert(", '"@ =~= seq![',', ' ', '\'']);
    assert("驱动 ["@ =~= seq!['驱', '动', ' ', '[']);
    let mut i: usize = 0;
    while i < failed.len()
        invariant
            1 <= failed@.len(),
            i <= failed@.len(),
            "'"@ == seq!['\''],
            ", '"@ == seq![',', ' ', '\''],
            i == 0 ==> s@ == seq!['驱', '动', ' ', '['],
            i > 0 ==> s@ + seq![']'] == seq!['驱', '动', ' '] + drive_list_debug(
                failed@.take(i as int),
            ),
        decreases failed@.len() - i,
    {
        let ghost prev = s@;
        if i == 0 {
            s.append("'");
        } else {
            s.append(", '");
        }
        crate::text::push_char(&mut s, failed[i]);
        s.append("'");
        proof {
            let t = failed@.take(i + 1);
            assert(t.drop_last() =~= failed@.take(i as int));
            assert(t.last() == failed@[i as int]);
            if i == 0 {
                assert(t.len() == 1);
                assert(t[0] == failed@[0]);
                assert(s@ =~= seq!['驱', '动', ' ', '[', '\'', failed@[0], '\'']);
                assert(s@ + seq![']'] =~= seq!['驱', '动', ' '] + drive_list_debug(t));
            } else {
                let d = drive_list_debug(failed@.take(i as int));
                assert(d.len() > 0);
                assert((seq!['驱', '动', ' '] + d).drop_last() =~= seq!['驱', '动', ' '] + d.drop_last());
                assert(prev =~= (prev + seq![']']).drop_last());
                assert(s@ =~= prev + seq![',', ' ', '\'', failed@[i as int], '\'']);
                assert(s@ + seq![']'] =~= seq!['驱', '动', ' '] + drive_list_debug(t));
            }
        }
        i += 1;
    }
    s.append("] 刷新失败");
    proof {
        assert(failed@.take(failed@.len() as int) =~= failed@);
        assert(s@ =~= drive_failure_text(failed@));
    }
    Err(s)
}

/// `DRIVE_FIXED`: what `GetDriveTypeW` reports for a fixed disk.
pub const DRIVE_FIXED: u32 = 3;

/// Number of drive letters, `A` to `Z`.
pub const DRIVE_LETTERS: usize = 26;

/// The `i`-th drive letter, counting from `A`.
pub open spec fn drive_letter(i: int) -> char {
    (65 + i) as char
}

/// The letters whose drive type, given for `A:` to `Z:` in order, is fixed.
pub open spec fn fixed_letters(types: Seq<u32>) -> Seq<char>
    decreases types.len(),
{
    if types.len() == 0 {
        seq![]
    } else {
        let before = fixed_letters(types.drop_last());
        if types.last() == DRIVE_FIXED {
            before.push(drive_letter(types.len() - 1))
        } else {
            before
        }
    }
}

/// The fixed drives, from the types `GetDriveTypeW` reported for the roots
/// `A:\` to `Z:\` (see `drive_root_path`), in that order.
pub fn fixed_drives(drive_types: &[u32]) -> (r: Vec<char>)
    requires
        drive_types@.len() == DRIVE_LETTERS,
    ensures
        r@ == fixed_letters(drive_types@),
        forall|i: int| 0 <= i < r@.len() ==> 'A' <= #[trigger] r@[i] <= 'Z',
{
    let mut drives: Vec<char> = Vec::new();
    let mut i: usize = 0;
    while i < drive_types.len()
        invariant
            i <= drive_types@.len() == DRIVE_LETTERS,
            drives@ == fixed_letters(drive_types@.take(i as int)),
            forall|k: int| 0 <= k < drives@.len() ==> 'A' <= #[trigger] drives@[k] < drive_letter(i as int),
        decreases drive_types@.len() - i,
    {
        proof {
            assert(drive_types@.take(i + 1).drop_last() =~= drive_types@.take(i as int));
        }
        if drive_types[i] == DRIVE_FIXED {
            let letter: u8 = 65u8 + (i as u8);
            drives.push(letter as char);
        }
        i += 1;
    }
    assert(drive_types@.take(DRIVE_LETTERS as int) =~= drive_types@);
    drives
}

/// `X:\`, NUL-terminated UTF-16: the root whose drive type is asked.
pub fn drive_root_path(letter: char) -> (r: Vec<u16>)
    requires
        'A' <= letter <= 'Z',
    ensures
        r@ == wide_null_spec(seq![letter, ':', '\\']),
{
    let mut s = String::new();
    push_char(&mut s, letter);
    push_char(&mut s, ':');
    push_char(&mut s, '\\');
    assert(s@ =~= seq![letter, ':', '\\']);
    wide_null(s.as_str())
}

/// `\\.\X:`, NUL-terminated UTF-16: the volume opened to flush its cache.
pub fn volume_device_path(letter: char) -> (r: Vec<u16>)
    requires
        'A' <= letter <= 'Z',
    ensures
        r@ == wide_null_spec(seq!['\\', '\\', '.', '\\', letter, ':']),
{
    let mut s = String::new();
    push_char(&mut s, '\\');
    push_char(&mut s, '\\');
    push_char(&mut s, '.');
    push_char(&mut s, '\\');
    push_char(&mut s, letter);
    push_char(&mut s, ':');
    assert(s@ =~= seq!['\\', '\\', '.', '\\', letter, ':']);
    wide_null(s.as_str())
}

} // verus!
