//! Volume targets for flushing the modified file cache: the Mount Manager's
//! `MOUNTMGR_MOUNT_POINTS` reply format, the `MOUNTMGR_IS_VOLUME_NAME` rule,
//! display labels and the ordered, duplicate-free target list.
use vstd::prelude::*;

use crate::text::{
    chars_lt, lemma_lex_lt_asymmetric, lemma_sorted_insert_pos, lex_lt, sorted_insert_pos, str_le,
    str_order,
};
use crate::win32::wide::{utf16_decode, utf16_to_string};

verus! {

/// Size in bytes of `MOUNTMGR_MOUNT_POINTS` before its first entry.
pub const MOUNT_POINTS_HEADER_SIZE: u64 = 8;

/// Size in bytes of one `MOUNTMGR_MOUNT_POINT` entry.
pub const MOUNT_POINT_SIZE: u64 = 24;

/// Initial reply buffer for `IOCTL_MOUNTMGR_QUERY_POINTS`.
pub const INITIAL_MOUNT_POINTS_BUFFER: usize = 16384;

/// `IOCTL_MOUNTMGR_QUERY_POINTS`, i.e. `ctl_code('m', 2, METHOD_BUFFERED, FILE_ANY_ACCESS)`.
pub const IOCTL_MOUNTMGR_QUERY_POINTS: u32 = 0x6D0008;

/// `ERROR_INSUFFICIENT_BUFFER`.
pub const ERROR_INSUFFICIENT_BUFFER: u32 = 122;

/// The `CTL_CODE` macro of the Windows DDK.
pub open spec fn ctl_code_spec(device_type: u32, function: u32, method: u32, access: u32) -> u32 {
    (device_type << 16u32) | (access << 14u32) | (function << 2u32) | method
}

pub fn ctl_code(device_type: u32, function: u32, method: u32, access: u32) -> (r: u32)
    ensures
        r == ctl_code_spec(device_type, function, method, access),
{
    (device_type << 16u32) | (access << 14u32) | (function << 2u32) | method
}

/// The query-points control code is the one `ctl_code` builds for the Mount Manager.
pub proof fn lemma_query_points_code()
    ensures
        ctl_code_spec(0x6D, 2, 0, 0) == IOCTL_MOUNTMGR_QUERY_POINTS,
{
    assert(((0x6Du32 << 16u32) | (0u32 << 14u32) | (2u32 << 2u32) | 0u32) == 0x6D0008u32)
        by (bit_vector);
}

// ---------------------------------------------------------------------------
// The reply format
// ---------------------------------------------------------------------------

/// Little-endian `u16` at byte `at`.
pub open spec fn le_u16(b: Seq<u8>, at: int) -> u16 {
    (b[at] as int + b[at + 1] as int * 256) as u16
}

/// Little-endian `u32` at byte `at`.
pub open spec fn le_u32(b: Seq<u8>, at: int) -> u32 {
    (b[at] as int + b[at + 1] as int * 256 + b[at + 2] as int * 65536 + b[at + 3] as int
        * 16777216) as u32
}

/// `count` little-endian UTF-16 units starting at byte `from`.
pub open spec fn le_units(b: Seq<u8>, from: int, count: nat) -> Seq<u16> {
    Seq::new(count, |k: int| le_u16(b, from + 2 * k))
}

/// Number of entries the reply header announces.
pub open spec fn mount_point_count(b: Seq<u8>) -> u32 {
    le_u32(b, 4)
}

/// The symbolic link that entry `i` names, when its name lies within the reply
/// and has a whole number of UTF-16 units; entries without a name are skipped.
pub open spec fn mount_point_link(b: Seq<u8>, i: int) -> Option<Seq<u16>> {
    let entry = 8 + 24 * i;
    let name_offset = le_u32(b, entry) as int;
    let name_bytes = le_u16(b, entry + 4) as int;
    if name_bytes == 0 || name_offset + name_bytes > b.len() || name_bytes % 2 != 0 {
        None
    } else {
        Some(le_units(b, name_offset, (name_bytes / 2) as nat))
    }
}

/// The links of entries `0..k`, in order.
pub open spec fn links_of_entries(b: Seq<u8>, k: nat) -> Seq<Seq<u16>>
    decreases k,
{
    if k == 0 {
        seq![]
    } else {
        let before = links_of_entries(b, (k - 1) as nat);
        match mount_point_link(b, k - 1) {
            Some(l) => before.push(l),
            None => before,
        }
    }
}

/// What a `MOUNTMGR_MOUNT_POINTS` reply lists: nothing when it is shorter than
/// its header, `None` when its entries run past its end, else the links of all entries.
pub open spec fn parse_links_spec(b: Seq<u8>) -> Option<Seq<Seq<u16>>> {
    if b.len() < 8 {
        Some(seq![])
    } else if 8 + 24 * (mount_point_count(b) as int) > b.len() {
        None
    } else {
        Some(links_of_entries(b, mount_point_count(b) as nat))
    }
}

/// Why a Mount Manager reply could not be used.
#[derive(Clone, Copy, Debug, PartialEq, Eq, Structural)]
pub enum VolumeError {
    /// The reply announces more entries than it holds.
    Truncated,
}

fn read_le_u16(b: &[u8], at: usize) -> (r: u16)
    requires
        at + 2 <= b@.len(),
    ensures
        r == le_u16(b@, at as int),
{
    (b[at] as u16) + (b[at + 1] as u16) * 256
}

fn read_le_u32(b: &[u8], at: usize) -> (r: u32)
    requires
        at + 4 <= b@.len(),
    ensures
        r == le_u32(b@, at as int),
{
    (b[at] as u32) + (b[at + 1] as u32) * 256 + (b[at + 2] as u32) * 65536 + (b[at + 3] as u32)
        * 16777216
}

fn read_units(b: &[u8], from: usize, count: usize) -> (r: Vec<u16>)
    requires
        from + 2 * count <= b@.len(),
    ensures
        r@ == le_units(b@, from as int, count as nat),
{
    let mut out: Vec<u16> = Vec::new();
    let mut k: usize = 0;
    let blen = b.len();
    while k < count
        invariant
            k <= count,
            blen == b@.len(),
            from + 2 * count <= b@.len(),
            out@ == le_units(b@, from as int, k as nat),
        decreases count - k,
    {
        out.push(read_le_u16(b, from + 2 * k));
        k += 1;
        assert(out@ =~= le_units(b@, from as int, k as nat));
    }
    out
}

/// The symbolic links listed in a `MOUNTMGR_MOUNT_POINTS` reply, in entry order.
pub fn parse_volume_symbolic_links(buffer: &[u8]) -> (r: Result<Vec<Vec<u16>>, VolumeError>)
    ensures
        match r {
            Ok(links) => parse_links_spec(buffer@) == Some(link_views(links@)),
            Err(_) => parse_links_spec(buffer@) is None,
        },
{
    if buffer.len() < 8 {
        let out: Vec<Vec<u16>> = Vec::new();
        assert(link_views(out@) =~= Seq::<Seq<u16>>::empty());
        return Ok(out);
    }
    let count = read_le_u32(buffer, 4);
    let entries_end: u64 = 8 + (count as u64) * 24;
    if entries_end > buffer.len() as u64 {
        return Err(VolumeError::Truncated);
    }
    let mut links: Vec<Vec<u16>> = Vec::new();
    let mut index: u32 = 0;
    let blen = buffer.len();
    while index < count
        invariant
            index <= count,
            blen == buffer@.len(),
            count == mount_point_count(buffer@),
            8 + 24 * (count as int) <= buffer@.len(),
            link_views(links@) == links_of_entries(buffer@, index as nat),
        decreases count - index,
    {
        let ghost before = links@;
        let offset64: u64 = 8 + (index as u64) * 24;
        assert(offset64 + 24 <= blen);
        let offset: usize = offset64 as usize;
        let name_offset = read_le_u32(buffer, offset);
        let name_bytes = read_le_u16(buffer, offset + 4);
        let name_end: u64 = (name_offset as u64) + (name_bytes as u64);
        if name_bytes != 0 && name_end <= buffer.len() as u64 && name_bytes % 2 == 0 {
            let units = read_units(buffer, name_offset as usize, (name_bytes / 2) as usize);
            links.push(units);
            proof {
                assert(link_views(links@) =~= link_views(before).push(units@));
            }
        }
        index += 1;
    }
    Ok(links)
}

// ---------------------------------------------------------------------------
// Volume names
// ---------------------------------------------------------------------------

/// `MOUNTMGR_IS_VOLUME_NAME`: `\??\Volume{GUID}` or `\\?\Volume{GUID}`,
/// optionally followed by one backslash.
pub open spec fn is_volume_name(c: Seq<u16>) -> bool {
    let len_ok = c.len() * 2 == 96 || (c.len() * 2 == 98 && c[48] == 92);
    &&& len_ok
    &&& c.len() >= 48
    &&& c[0] == 92
    &&& (c[1] == 63 || c[1] == 92)
    &&& c[2] == 63
    &&& c[3] == 92
    &&& c[4] == 86
    &&& c[5] == 111
    &&& c[6] == 108
    &&& c[7] == 117
    &&& c[8] == 109
    &&& c[9] == 101
    &&& c[10] == 123
    &&& c[19] == 45
    &&& c[24] == 45
    &&& c[29] == 45
    &&& c[34] == 45
    &&& c[47] == 125
}

pub fn is_volume_name_wide(chars: &[u16]) -> (r: bool)
    ensures
        r == is_volume_name(chars@),
{
    let n = chars.len();
    let len_ok = n == 48 || (n == 49 && chars[48] == 92u16);
    if !len_ok || n < 48 {
        return false;
    }
    chars[0] == 92u16 && (chars[1] == 63u16 || chars[1] == 92u16)
        && chars[2] == 63u16 && chars[3] == 92u16 && chars[4] == 86u16
        && chars[5] == 111u16 && chars[6] == 108u16 && chars[7] == 117u16
        && chars[8] == 109u16 && chars[9] == 101u16 && chars[10] == 123u16
        && chars[19] == 45u16 && chars[24] == 45u16 && chars[29] == 45u16
        && chars[34] == 45u16 && chars[47] == 125u16
}

/// `\??\`
pub open spec fn nt_prefix() -> Seq<char> {
    seq!['\\', '?', '?', '\\']
}

/// `\\?\`
pub open spec fn win32_prefix() -> Seq<char> {
    seq!['\\', '\\', '?', '\\']
}

/// `t` without its trailing backslashes.
pub open spec fn trim_trailing_backslashes(t: Seq<char>) -> Seq<char>
    decreases t.len(),
{
    if t.len() > 0 && t.last() == '\\' {
        trim_trailing_backslashes(t.drop_last())
    } else {
        t
    }
}

/// The short label of a volume link: its text without the `\??\` (or else
/// `\\?\`) prefix and without trailing backslashes.
pub open spec fn volume_label(link: Seq<u16>) -> Seq<char> {
    let t = utf16_decode(link);
    let stripped = if t.len() >= 4 && t.take(4) == nt_prefix() {
        t.skip(4)
    } else if t.len() >= 4 && t.take(4) == win32_prefix() {
        t.skip(4)
    } else {
        t
    };
    trim_trailing_backslashes(stripped)
}

/// Lossy decoding of a UTF-16 link.
pub fn wide_to_string(chars: &[u16]) -> (r: String)
    ensures
        r@ == utf16_decode(chars@),
{
    utf16_to_string(chars)
}

pub fn volume_display_label(symbolic_link: &[u16]) -> (r: String)
    ensures
        r@ == volume_label(symbolic_link@),
{
    let text = wide_to_string(symbolic_link);
    let cs = crate::text::chars_of(text.as_str());
    let n = cs.len();
    let mut start: usize = 0;
    if n >= 4 && cs[0] == '\\' && cs[1] == '?' && cs[2] == '?' && cs[3] == '\\' {
        start = 4;
        proof {
            assert(cs@.take(4) =~= nt_prefix());
        }
    } else if n >= 4 && cs[0] == '\\' && cs[1] == '\\' && cs[2] == '?' && cs[3] == '\\' {
        start = 4;
        proof {
            assert(cs@.take(4) =~= win32_prefix());
            assert(cs@.take(4) != nt_prefix()) by {
                assert(cs@.take(4)[1] != nt_prefix()[1]);
            }
        }
    } else {
        proof {
            if n >= 4 {
                assert(cs@.take(4) != nt_prefix()) by {
                    if cs@.take(4) == nt_prefix() {
                        assert(cs@[0] == cs@.take(4)[0]);
                        assert(cs@[1] == cs@.take(4)[1]);
                        assert(cs@[2] == cs@.take(4)[2]);
                        assert(cs@[3] == cs@.take(4)[3]);
                    }
                }
                assert(cs@.take(4) != win32_prefix()) by {
                    if cs@.take(4) == win32_prefix() {
                        assert(cs@[0] == cs@.take(4)[0]);
                        assert(cs@[1] == cs@.take(4)[1]);
                        assert(cs@[2] == cs@.take(4)[2]);
                        assert(cs@[3] == cs@.take(4)[3]);
                    }
                }
            }
        }
    }
    let ghost stripped = cs@.subrange(start as int, n as int);
    assert(stripped =~= (if start == 4 { cs@.skip(4) } else { cs@ }));
    let mut end: usize = n;
    while end > start && cs[end - 1] == '\\'
        invariant
            start <= end <= n == cs@.len(),
            trim_trailing_backslashes(stripped) == trim_trailing_backslashes(
                cs@.subrange(start as int, end as int),
            ),
        decreases end,
    {
        assert(cs@.subrange(start as int, end as int).drop_last() =~= cs@.subrange(
            start as int,
            end - 1,
        ));
        end -= 1;
    }
    let r = crate::text::string_from_char_range(cs.as_slice(), start, end);
    proof {
        let last = cs@.subrange(start as int, end as int);
        assert(trim_trailing_backslashes(last) == last);
    }
    r
}

// ---------------------------------------------------------------------------
// Flush targets
// ---------------------------------------------------------------------------

/// A volume whose modified file cache is to be flushed.
#[derive(Clone, Debug, PartialEq, Eq)]
pub struct VolumeFlushTarget {
    /// Short label, e.g. `Volume{...}`.
    pub label: String,
    /// The `\??\Volume{GUID}` link the Mount Manager returned.
    symbolic_link: Vec<u16>,
}

impl VolumeFlushTarget {
    /// The target for one volume link, labelled by `volume_display_label`.
    pub fn for_link(symbolic_link: Vec<u16>) -> (r: VolumeFlushTarget)
        ensures
            r.label_view() == volume_label(symbolic_link@),
            r.link_view() == symbolic_link@,
    {
        let label = volume_display_label(symbolic_link.as_slice());
        VolumeFlushTarget { label, symbolic_link }
    }

    pub closed spec fn link_view(&self) -> Seq<u16> {
        self.symbolic_link@
    }

    pub closed spec fn label_view(&self) -> Seq<char> {
        self.label@
    }

    /// The short label shown for this volume (`for_link` and
    /// `list_volume_flush_targets` make it `volume_label` of the link).
    pub fn label(&self) -> (r: &String)
        ensures
            r@ == self.label_view(),
    {
        &self.label
    }

    /// The link to open when flushing this volume.
    pub fn symbolic_link(&self) -> (r: &[u16])
        ensures
            r@ == self.link_view(),
    {
        self.symbolic_link.as_slice()
    }
}

/// The volume links among `points`, first occurrences only, in order.
pub open spec fn distinct_volume_links(points: Seq<Seq<u16>>) -> Seq<Seq<u16>>
    decreases points.len(),
{
    if points.len() == 0 {
        seq![]
    } else {
        let before = distinct_volume_links(points.drop_last());
        let p = points.last();
        if is_volume_name(p) && !before.contains(p) {
            before.push(p)
        } else {
            before
        }
    }
}

/// The labels of a sequence of links.
pub open spec fn link_labels(links: Seq<Seq<u16>>) -> Seq<Seq<char>> {
    links.map_values(|x: Seq<u16>| volume_label(x))
}

/// The stable sort by label of a sequence of links (insertion in input order).
pub open spec fn sort_links_by_label(links: Seq<Seq<u16>>) -> Seq<Seq<u16>>
    decreases links.len(),
{
    if links.len() == 0 {
        seq![]
    } else {
        let sorted = sort_links_by_label(links.drop_last());
        let l = links.last();
        sorted.insert(sorted_insert_pos(link_labels(sorted), volume_label(l)), l)
    }
}

/// The targets to flush for a list of mount-point links: the volume links,
/// each once, in the stable order of their labels.
pub open spec fn flush_targets_spec(points: Seq<Seq<u16>>) -> Seq<Seq<u16>> {
    sort_links_by_label(distinct_volume_links(points))
}

/// The views of a sequence of unit vectors.
pub open spec fn link_views(ls: Seq<Vec<u16>>) -> Seq<Seq<u16>> {
    ls.map_values(|l: Vec<u16>| l@)
}

pub open spec fn target_links(ts: Seq<VolumeFlushTarget>) -> Seq<Seq<u16>> {
    ts.map_values(|t: VolumeFlushTarget| t.link_view())
}

fn contains_link(ts: &Vec<Vec<u16>>, link: &Vec<u16>) -> (r: bool)
    ensures
        r == link_views(ts@).contains(link@),
{
    let mut i: usize = 0;
    while i < ts.len()
        invariant
            i <= ts@.len(),
            forall|j: int| 0 <= j < i ==> ts@[j]@ != link@,
        decreases ts@.len() - i,
    {
        if slices_eq(ts[i].as_slice(), link.as_slice()) {
            assert(link_views(ts@)[i as int] == link@);
            return true;
        }
        i += 1;
    }
    proof {
        if link_views(ts@).contains(link@) {
            let k = choose|k: int|
                0 <= k < ts@.len() && #[trigger] link_views(ts@)[k] == link@;
            assert(ts@[k]@ == link@);
        }
    }
    false
}

fn slices_eq(a: &[u16], b: &[u16]) -> (r: bool)
    ensures
        r == (a@ == b@),
{
    if a.len() != b.len() {
        return false;
    }
    let mut i: usize = 0;
    while i < a.len()
        invariant
            a@.len() == b@.len(),
            i <= a@.len(),
            forall|j: int| 0 <= j < i ==> a@[j] == b@[j],
        decreases a@.len() - i,
    {
        if a[i] != b[i] {
            return false;
        }
        i += 1;
    }
    assert(a@ =~= b@);
    true
}

/// The volumes to flush, from the links the Mount Manager listed: only
/// `Volume{GUID}` links (drive letters name the same volumes), each once,
/// ordered by label.
pub fn list_volume_flush_targets(mount_points: Vec<Vec<u16>>) -> (r: Vec<VolumeFlushTarget>)
    ensures
        target_links(r@) == flush_targets_spec(link_views(mount_points@)),
        forall|i: int| 0 <= i < r@.len() ==> r@[i].label_view() == volume_label(#[trigger] r@[i].link_view()),
{
    let ghost points = link_views(mount_points@);
    // Keep the first occurrence of each volume link.
    let mut seen: Vec<Vec<u16>> = Vec::new();
    let mut i: usize = 0;
    while i < mount_points.len()
        invariant
            i <= mount_points@.len(),
            points == link_views(mount_points@),
            link_views(seen@) == distinct_volume_links(points.take(i as int)),
        decreases mount_points@.len() - i,
    {
        let ghost before = seen@;
        let link = &mount_points[i];
        proof {
            assert(points.take(i + 1).drop_last() =~= points.take(i as int));
            assert(points.take(i + 1).last() == link@);
        }
        if is_volume_name_wide(link.as_slice()) && !contains_link(&seen, link) {
            seen.push(link.clone());
            proof {
                assert(link_views(seen@) =~= link_views(before).push(link@));
            }
        }
        i += 1;
    }
    assert(points.take(mount_points@.len() as int) =~= points);
    // Stable insertion by label.
    let mut targets: Vec<VolumeFlushTarget> = Vec::new();
    let mut k: usize = 0;
    let ghost distinct = link_views(seen@);
    while k < seen.len()
        invariant
            k <= seen@.len(),
            distinct == link_views(seen@),
            target_links(targets@) == sort_links_by_label(distinct.take(k as int)),
            forall|j: int|
                0 <= j < targets@.len() ==> targets@[j].label@ == volume_label(
                    #[trigger] targets@[j].link_view(),
                ),
        decreases seen@.len() - k,
    {
        let t = VolumeFlushTarget::for_link(seen[k].clone());
        let ghost sorted = target_links(targets@);
        let ghost labels = link_labels(sorted);
        // Find the insertion point: after every label that does not sort after `t.label`.
        let tl = crate::text::chars_of(t.label.as_str());
        let mut pos: usize = targets.len();
        let mut found = false;
        assert(labels.take(targets@.len() as int) =~= labels);
        while pos > 0 && !found
            invariant
                labels.len() == targets@.len(),
                found ==> pos > 0 && !lex_lt(tl@, labels[pos - 1]),
                pos <= targets@.len(),
                sorted == target_links(targets@),
                labels == link_labels(sorted),
                tl@ == volume_label(t.link_view()),
                forall|j: int|
                    0 <= j < targets@.len() ==> targets@[j].label@ == volume_label(
                        #[trigger] targets@[j].link_view(),
                    ),
                sorted_insert_pos(labels, tl@) == sorted_insert_pos(labels.take(pos as int), tl@),
            decreases pos + (if found { 0int } else { 1int }),
        {
            let other = crate::text::chars_of(targets[pos - 1].label.as_str());
            proof {
                assert(labels.take(pos as int).last() == other@);
                assert(labels.take(pos as int).drop_last() =~= labels.take(pos - 1));
            }
            if chars_lt(tl.as_slice(), other.as_slice()) {
                pos -= 1;
            } else {
                found = true;
            }
        }
        proof {
            assert(labels.take(0) =~= Seq::<Seq<char>>::empty());
        }
        let ghost old_targets = targets@;
        targets.insert(pos, t);
        proof {
            let d = distinct.take(k + 1);
            assert(d.drop_last() =~= distinct.take(k as int));
            assert(d.last() == seen@[k as int]@);
            assert(sorted_insert_pos(labels, tl@) == pos as int);
            assert(target_links(targets@) =~= sorted.insert(pos as int, seen@[k as int]@));
        }
        k += 1;
    }
    assert(distinct.take(seen@.len() as int) =~= distinct);
    targets
}

proof fn lemma_contains_after_push(s: Seq<Seq<u16>>, p: Seq<u16>, x: Seq<u16>)
    ensures
        s.push(p).contains(x) <==> (s.contains(x) || x == p),
{
    let r = s.push(p);
    if r.contains(x) {
        let k = choose|k: int| 0 <= k < r.len() && r[k] == x;
        if k < s.len() {
            assert(s[k] == x);
        }
    }
    if s.contains(x) {
        let k = choose|k: int| 0 <= k < s.len() && s[k] == x;
        assert(r[k] == x);
    }
    if x == p {
        assert(r[s.len() as int] == x);
    }
}

/// The volume links of a list, first occurrences only: none twice, and
/// exactly the volume links that occur in the list.
proof fn lemma_distinct_volume_links(points: Seq<Seq<u16>>)
    ensures
        distinct_volume_links(points).no_duplicates(),
        forall|x: Seq<u16>|
            #[trigger] distinct_volume_links(points).contains(x) <==> (points.contains(x)
                && is_volume_name(x)),
    decreases points.len(),
{
    if points.len() > 0 {
        let t = points.drop_last();
        let p = points.last();
        lemma_distinct_volume_links(t);
        let before = distinct_volume_links(t);
        assert(points =~= t.push(p));
        assert forall|x: Seq<u16>|
            #[trigger] distinct_volume_links(points).contains(x) <==> (points.contains(x)
                && is_volume_name(x)) by {
            lemma_contains_after_push(t, p, x);
            lemma_contains_after_push(before, p, x);
        }
        if is_volume_name(p) && !before.contains(p) {
            let r = before.push(p);
            assert forall|i: int, j: int|
                0 <= i < r.len() && 0 <= j < r.len() && i != j implies r[i] != r[j] by {
                if i == before.len() {
                    assert(before[j] == r[j]);
                } else if j == before.len() {
                    assert(before[i] == r[i]);
                } else {
                    assert(before[i] == r[i] && before[j] == r[j]);
                }
            }
        }
    }
}

/// Sorting by label keeps every link as often as it was there and orders
/// the labels.
proof fn lemma_sort_links_by_label(links: Seq<Seq<u16>>)
    ensures
        sort_links_by_label(links).to_multiset() == links.to_multiset(),
        vstd::relations::sorted_by(link_labels(sort_links_by_label(links)), str_order()),
    decreases links.len(),
{
    broadcast use vstd::seq_lib::group_to_multiset_ensures;

    if links.len() == 0 {
        assert(links =~= Seq::<Seq<u16>>::empty());
        assert(link_labels(sort_links_by_label(links)) =~= Seq::<Seq<char>>::empty());
    } else {
        let t = links.drop_last();
        let l = links.last();
        lemma_sort_links_by_label(t);
        let sorted = sort_links_by_label(t);
        let labels = link_labels(sorted);
        let x = volume_label(l);
        let p = sorted_insert_pos(labels, x);
        lemma_sorted_insert_pos(labels, x);
        let r = sorted.insert(p, l);
        assert(r == sort_links_by_label(links));
        sorted.insert_ensures(p, l);
        let rl = link_labels(r);
        let ins = labels.insert(p, x);
        labels.insert_ensures(p, x);
        assert(rl =~= ins);
        assert forall|i: int, j: int| 0 <= i < j < ins.len() implies #[trigger] str_order()(
            ins[i],
            ins[j],
        ) by {
            if j < p {
                assert(str_order()(labels[i], labels[j]));
            } else if j == p {
                assert(str_le(labels[i], x));
            } else if i < p {
                assert(str_order()(labels[i], labels[j - 1]));
            } else if i == p {
                assert(lex_lt(x, labels[j - 1]));
                lemma_lex_lt_asymmetric(x, labels[j - 1]);
            } else {
                assert(str_order()(labels[i - 1], labels[j - 1]));
            }
        }
        assert(links =~= t.push(l));
    }
}

/// The volumes to flush are each a volume link of the Mount Manager's list,
/// every such link is there, none is there twice, and they come in the order
/// of their labels.
pub proof fn lemma_flush_targets(points: Seq<Seq<u16>>)
    ensures
        forall|x: Seq<u16>|
            #[trigger] flush_targets_spec(points).contains(x) <==> (points.contains(x)
                && is_volume_name(x)),
        flush_targets_spec(points).no_duplicates(),
        forall|i: int, j: int|
            0 <= i < j < flush_targets_spec(points).len() ==> !lex_lt(
                volume_label(#[trigger] flush_targets_spec(points)[j]),
                volume_label(#[trigger] flush_targets_spec(points)[i]),
            ),
{
    broadcast use vstd::seq_lib::group_to_multiset_ensures;

    let d = distinct_volume_links(points);
    let r = flush_targets_spec(points);
    lemma_distinct_volume_links(points);
    lemma_sort_links_by_label(d);
    assert forall|x: Seq<u16>| #[trigger] r.contains(x) <==> d.contains(x) by {
        assert(r.to_multiset().count(x) == d.to_multiset().count(x));
    }
    d.lemma_multiset_has_no_duplicates();
    assert forall|x: Seq<u16>| r.to_multiset().contains(x) implies r.to_multiset().count(x) == 1 by {
        assert(d.to_multiset().contains(x));
    }
    r.lemma_multiset_has_no_duplicates_conv();
    assert forall|i: int, j: int| 0 <= i < j < r.len() implies !lex_lt(
        volume_label(#[trigger] r[j]),
        volume_label(#[trigger] r[i]),
    ) by {
        assert(str_order()(link_labels(r)[i], link_labels(r)[j]));
    }
}

/// What to do after the first `IOCTL_MOUNTMGR_QUERY_POINTS` call.
#[derive(Clone, Copy, Debug, PartialEq, Eq, Structural)]
pub enum MountQueryNext {
    /// The reply fit: keep its first `n` bytes.
    Done(u32),
    /// The reply did not fit: call again with a buffer of `n` bytes.
    RetryWithSize(u32),
    /// The call failed with this error.
    Failed(u32),
    /// The call reported a too small buffer without saying how large it must be.
    NoSizeReported,
}

/// The decision after the first query: success keeps the reply; only
/// `ERROR_INSUFFICIENT_BUFFER` with a reported size leads to a second call.
pub fn mount_query_next(ok: bool, bytes_returned: u32, last_error: u32) -> (r: MountQueryNext)
    ensures
        ok ==> r == MountQueryNext::Done(bytes_returned),
        !ok && last_error != ERROR_INSUFFICIENT_BUFFER ==> r == MountQueryNext::Failed(last_error),
        !ok && last_error == ERROR_INSUFFICIENT_BUFFER && bytes_returned == 0 ==> r
            == MountQueryNext::NoSizeReported,
        !ok && last_error == ERROR_INSUFFICIENT_BUFFER && bytes_returned != 0 ==> r
            == MountQueryNext::RetryWithSize(bytes_returned),
        r == mount_query_first_spec(ok, bytes_returned, last_error),
{
    if ok {
        MountQueryNext::Done(bytes_returned)
    } else if last_error != ERROR_INSUFFICIENT_BUFFER {
        MountQueryNext::Failed(last_error)
    } else if bytes_returned == 0 {
        MountQueryNext::NoSizeReported
    } else {
        MountQueryNext::RetryWithSize(bytes_returned)
    }
}

/// The decision after the second call, made with a buffer of the size the
/// first one asked for: its reply is kept when it succeeded, else the query
/// fails. It never asks for a third call.
pub fn mount_query_after_retry(ok: bool, bytes_returned: u32, last_error: u32) -> (r: MountQueryNext)
    ensures
        ok ==> r == MountQueryNext::Done(bytes_returned),
        !ok ==> r == MountQueryNext::Failed(last_error),
        r == mount_query_retry_spec(ok, bytes_returned, last_error),
{
    if ok {
        MountQueryNext::Done(bytes_returned)
    } else {
        MountQueryNext::Failed(last_error)
    }
}

/// The Mount Manager is queried at most twice: only the first call can ask
/// for another, and the answer to the second is final.
pub proof fn lemma_mount_query_at_most_two_calls(
    ok1: bool,
    n1: u32,
    e1: u32,
    ok2: bool,
    n2: u32,
    e2: u32,
)
    ensures
        mount_query_first_spec(ok1, n1, e1) is RetryWithSize ==> !ok1 && n1 != 0,
        !(mount_query_retry_spec(ok2, n2, e2) is RetryWithSize),
        !(mount_query_retry_spec(ok2, n2, e2) is NoSizeReported),
{
}

/// `mount_query_next` as a function of the first call's outcome.
pub open spec fn mount_query_first_spec(ok: bool, bytes_returned: u32, last_error: u32) -> MountQueryNext {
    if ok {
        MountQueryNext::Done(bytes_returned)
    } else if last_error != ERROR_INSUFFICIENT_BUFFER {
        MountQueryNext::Failed(last_error)
    } else if bytes_returned == 0 {
        MountQueryNext::NoSizeReported
    } else {
        MountQueryNext::RetryWithSize(bytes_returned)
    }
}

/// `mount_query_after_retry` as a function of the second call's outcome.
pub open spec fn mount_query_retry_spec(ok: bool, bytes_returned: u32, last_error: u32) -> MountQueryNext {
    if ok {
        MountQueryNext::Done(bytes_returned)
    } else {
        MountQueryNext::Failed(last_error)
    }
}

} // verus!
