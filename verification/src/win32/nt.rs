//! Requests for `NtSetSystemInformation` and the reading of its status.
use vstd::prelude::*;

use crate::text::push_char;

verus! {

/// `SYSTEM_INFORMATION_CLASS` values the cleaner uses.
#[derive(Clone, Copy, Debug, PartialEq, Eq, Structural)]
pub enum InfoClass {
    FileCache,
    MemoryList,
    CombinePhysicalMemory,
}

impl InfoClass {
    pub open spec fn code_spec(self) -> u32 {
        match self {
            InfoClass::FileCache => 21,
            InfoClass::MemoryList => 80,
            InfoClass::CombinePhysicalMemory => 130,
        }
    }

    /// The numeric class passed to `NtSetSystemInformation`.
    pub fn code(self) -> (r: u32)
        ensures
            r == self.code_spec(),
            self == InfoClass::FileCache ==> r == 21,
            self == InfoClass::MemoryList ==> r == 80,
            self == InfoClass::CombinePhysicalMemory ==> r == 130,
    {
        match self {
            InfoClass::FileCache => 21,
            InfoClass::MemoryList => 80,
            InfoClass::CombinePhysicalMemory => 130,
        }
    }
}

/// Each request goes to the system information class Windows defines for
/// it: `SystemFileCacheInformation` is 21, `SystemMemoryListInformation` 80,
/// `SystemCombinePhysicalMemoryInformation` 130; all three differ.
pub proof fn lemma_info_class_numbers()
    ensures
        InfoClass::FileCache.code_spec() == 21,
        InfoClass::MemoryList.code_spec() == 80,
        InfoClass::CombinePhysicalMemory.code_spec() == 130,
{
}

/// `SYSTEM_MEMORY_LIST_COMMAND` values.
#[derive(Clone, Copy, Debug, PartialEq, Eq, Structural)]
pub enum SystemMemoryListCommand {
    EmptyWorkingSets,
    FlushModifiedList,
    PurgeStandbyList,
    PurgeLowPriorityStandbyList,
}

impl SystemMemoryListCommand {
    pub open spec fn code_spec(self) -> u32 {
        match self {
            SystemMemoryListCommand::EmptyWorkingSets => 2,
            SystemMemoryListCommand::FlushModifiedList => 3,
            SystemMemoryListCommand::PurgeStandbyList => 4,
            SystemMemoryListCommand::PurgeLowPriorityStandbyList => 5,
        }
    }

    /// The numeric command placed in the request buffer.
    pub fn code(self) -> (r: u32)
        ensures
            r == self.code_spec(),
            self == SystemMemoryListCommand::EmptyWorkingSets ==> r == 2,
            self == SystemMemoryListCommand::FlushModifiedList ==> r == 3,
            self == SystemMemoryListCommand::PurgeStandbyList ==> r == 4,
            self == SystemMemoryListCommand::PurgeLowPriorityStandbyList ==> r == 5,
    {
        match self {
            SystemMemoryListCommand::EmptyWorkingSets => 2,
            SystemMemoryListCommand::FlushModifiedList => 3,
            SystemMemoryListCommand::PurgeStandbyList => 4,
            SystemMemoryListCommand::PurgeLowPriorityStandbyList => 5,
        }
    }
}

/// Each memory-list command is sent as its `SYSTEM_MEMORY_LIST_COMMAND`
/// number: `MemoryEmptyWorkingSets` 2, `MemoryFlushModifiedList` 3,
/// `MemoryPurgeStandbyList` 4, `MemoryPurgeLowPriorityStandbyList` 5; no two
/// commands share a number, so no area runs another's purge.
pub proof fn lemma_memory_list_command_numbers()
    ensures
        SystemMemoryListCommand::EmptyWorkingSets.code_spec() == 2,
        SystemMemoryListCommand::FlushModifiedList.code_spec() == 3,
        SystemMemoryListCommand::PurgeStandbyList.code_spec() == 4,
        SystemMemoryListCommand::PurgeLowPriorityStandbyList.code_spec() == 5,
        forall|a: SystemMemoryListCommand, b: SystemMemoryListCommand|
            a.code_spec() == b.code_spec() ==> a == b,
{
}

/// `SYSTEM_FILECACHE_INFORMATION` (64-bit layout).
#[derive(Clone, Copy, Debug, PartialEq, Eq, Structural)]
pub struct SystemFileCacheInformation64 {
    pub current_size: usize,
    pub peak_size: usize,
    pub page_fault_count: u32,
    pub _pad: u32,
    pub minimum_working_set: usize,
    pub maximum_working_set: usize,
    pub current_size_in_pages: usize,
    pub peak_size_in_pages: usize,
    pub minimum_working_set_size: usize,
    pub maximum_working_set_size: usize,
    pub unused1: u32,
    pub unused2: u32,
    pub unused3: u32,
    pub unused4: u32,
}

impl SystemFileCacheInformation64 {
    /// The request that empties the system file cache: minimum and maximum
    /// working set both `(SIZE_T)-1`, every other field zero.
    pub fn flush_request() -> (r: SystemFileCacheInformation64)
        ensures
            r.minimum_working_set == usize::MAX,
            r.maximum_working_set == usize::MAX,
            r.current_size == 0 && r.peak_size == 0 && r.page_fault_count == 0 && r._pad == 0,
            r.current_size_in_pages == 0 && r.peak_size_in_pages == 0,
            r.minimum_working_set_size == 0 && r.maximum_working_set_size == 0,
            r.unused1 == 0 && r.unused2 == 0 && r.unused3 == 0 && r.unused4 == 0,
    {
        SystemFileCacheInformation64 {
            current_size: 0,
            peak_size: 0,
            page_fault_count: 0,
            _pad: 0,
            minimum_working_set: usize::MAX,
            maximum_working_set: usize::MAX,
            current_size_in_pages: 0,
            peak_size_in_pages: 0,
            minimum_working_set_size: 0,
            maximum_working_set_size: 0,
            unused1: 0,
            unused2: 0,
            unused3: 0,
            unused4: 0,
        }
    }
}

/// `MEMORY_COMBINE_INFORMATION_EX`.
#[derive(Clone, Copy, Debug, PartialEq, Eq, Structural)]
pub struct MemoryCombineInformationEx {
    pub handle: usize,
    pub pages_combined: u32,
    pub flags: u32,
}

impl Default for MemoryCombineInformationEx {
    fn default() -> (r: MemoryCombineInformationEx)
        ensures
            r.handle == 0 && r.pages_combined == 0 && r.flags == 0,
    {
        MemoryCombineInformationEx { handle: 0, pages_combined: 0, flags: 0 }
    }
}

/// The upper-case hexadecimal digit for `d` (`0 <= d < 16`).
pub open spec fn hex_upper_digit(d: nat) -> char {
    if d < 10 {
        ((d + 48) as u32) as char
    } else {
        ((d + 55) as u32) as char
    }
}

/// `format!("{:08X}", v)`: eight upper-case hex digits, most significant first.
pub open spec fn hex8(v: u32) -> Seq<char> {
    Seq::new(8, |i: int| hex_upper_digit(((v as nat) / pow16((7 - i) as nat)) % 16))
}

pub open spec fn pow16(k: nat) -> nat
    decreases k,
{
    if k == 0 {
        1
    } else {
        16 * pow16((k - 1) as nat)
    }
}

proof fn lemma_pow16_positive(k: nat)
    ensures
        pow16(k) >= 1,
    decreases k,
{
    if k > 0 {
        lemma_pow16_positive((k - 1) as nat);
    }
}

fn hex_digit(d: u32) -> (c: char)
    requires
        d < 16,
    ensures
        c == hex_upper_digit(d as nat),
{
    if d < 10 {
        let b: u8 = (d as u8) + 48;
        b as char
    } else {
        let b: u8 = (d as u8) + 55;
        b as char
    }
}

/// "NTSTATUS 0x"
pub open spec fn ntstatus_prefix() -> Seq<char> {
    seq!['N', 'T', 'S', 'T', 'A', 'T', 'U', 'S', ' ', '0', 'x']
}

/// The outcome of `NtSetSystemInformation`: success for status 0, else the
/// message `NTSTATUS 0x%08X` of the status' bits.
pub fn nt_status_result(status: i32) -> (r: Result<(), String>)
    ensures
        status == 0 ==> r is Ok,
        status != 0 ==> (r matches Err(m) && m@ == ntstatus_prefix() + hex8(status as u32)),
{
    if status == 0 {
        return Ok(());
    }
    let v: u32 = status as u32;
    let mut s = String::from_str("NTSTATUS 0x");
    proof {
        reveal_strlit("NTSTATUS 0x");
        reveal_with_fuel(pow16, 8);
    }
    let mut i: u32 = 0;
    let mut div: u32 = 0x1000_0000;
    while i < 8
        invariant
            i <= 8,
            i < 8 ==> div as nat == pow16((7 - i) as nat),
            div >= 1,
            s@ == ntstatus_prefix() + hex8(v).take(i as int),
        decreases 8 - i,
    {
        let d = (v / div) % 16;
        push_char(&mut s, hex_digit(d));
        proof {
            assert(hex8(v).take(i + 1) =~= hex8(v).take(i as int).push(hex_upper_digit(d as nat)));
            assert(s@ =~= ntstatus_prefix() + hex8(v).take(i + 1));
        }
        i += 1;
        if i < 8 {
            div = div / 16;
            proof {
                assert(pow16((8 - i) as nat) == 16 * pow16((7 - i) as nat));
                lemma_pow16_positive((7 - i) as nat);
            }
        }
    }
    assert(hex8(v).take(8) =~= hex8(v));
    Err(s)
}

} // verus!
