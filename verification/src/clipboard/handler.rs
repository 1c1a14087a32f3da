//! Turning raw clipboard content into a history entry: size limit, preview,
//! content hash and byte size.
use vstd::prelude::*;
use vstd::utf8::encode_utf8;

use super::{ContentType, RawClipboardContent};
use crate::text::{
    chars_lt, chars_of, decimal, decimal_string, join, lemma_lex_lt_asymmetric,
    lemma_sorted_insert_pos, lemma_str_order_total, lex_lt, push_char, sorted_insert_pos,
    str_le, str_order, string_from_char_range, string_views,
};

verus! {

/// Characters kept in a preview before the ellipsis.
pub const MAX_PREVIEW_LEN: usize = 200;

/// Largest text, in UTF-8 bytes, that is stored.
pub const MAX_TEXT_SIZE: usize = 1048576;

/// Clipboard content ready for storage.
pub struct ProcessedContent {
    pub content_type: ContentType,
    pub text_content: Option<String>,
    pub preview: String,
    pub file_paths: Option<Vec<String>>,
    pub content_hash: String,
    pub byte_size: i64,
}

// ---------------------------------------------------------------------------
// UTF-8 length
// ---------------------------------------------------------------------------

/// Bytes of the UTF-8 encoding of `c`.
pub open spec fn char_utf8_width(c: char) -> nat {
    let v = c as u32;
    if v < 0x80 {
        1
    } else if v < 0x800 {
        2
    } else if v < 0x10000 {
        3
    } else {
        4
    }
}

/// Bytes of the UTF-8 encoding of `s` (what `str::len` returns).
pub open spec fn utf8_len(s: Seq<char>) -> nat
    decreases s.len(),
{
    if s.len() == 0 {
        0
    } else {
        utf8_len(s.drop_last()) + char_utf8_width(s.last())
    }
}

proof fn lemma_encode_utf8_concat(a: Seq<char>, b: Seq<char>)
    ensures
        encode_utf8(a + b) == encode_utf8(a) + encode_utf8(b),
    decreases a.len(),
{
    if a.len() == 0 {
        assert(a + b =~= b);
        assert(encode_utf8(a) + encode_utf8(b) =~= encode_utf8(b));
    } else {
        lemma_encode_utf8_concat(a.drop_first(), b);
        assert((a + b).drop_first() =~= a.drop_first() + b);
        assert((a + b)[0] == a[0]);
        assert(encode_utf8(a) + encode_utf8(b) =~= vstd::utf8::encode_scalar(a[0] as u32) + (
        encode_utf8(a.drop_first()) + encode_utf8(b)));
    }
}

/// `str::len` counts the UTF-8 width of every character.
pub proof fn lemma_utf8_len(s: Seq<char>)
    ensures
        encode_utf8(s).len() == utf8_len(s),
    decreases s.len(),
{
    if s.len() > 0 {
        let c = s.last();
        lemma_utf8_len(s.drop_last());
        lemma_encode_utf8_concat(s.drop_last(), seq![c]);
        assert(s.drop_last() + seq![c] =~= s);
        assert(seq![c].drop_first() =~= Seq::<char>::empty());
        vstd::utf8::char_is_scalar(c);
        assert(seq![c][0] == c);
        assert(encode_utf8(Seq::<char>::empty()) =~= Seq::<u8>::empty());
        assert(encode_utf8(seq![c]) =~= vstd::utf8::encode_scalar(c as u32) + encode_utf8(Seq::<char>::empty()));
        assert(encode_utf8(seq![c]) =~= vstd::utf8::encode_scalar(c as u32));
    }
}

proof fn lemma_utf8_len_prefix_monotone(s: Seq<char>, a: int, b: int)
    requires
        0 <= a <= b <= s.len(),
    ensures
        utf8_len(s.take(a)) <= utf8_len(s.take(b)),
    decreases b - a,
{
    if a < b {
        lemma_utf8_len_prefix_monotone(s, a, b - 1);
        assert(s.take(b).drop_last() =~= s.take(b - 1));
    }
}

/// The longest prefix of `s` whose UTF-8 encoding fits in `limit` bytes: its length.
pub open spec fn fitting_chars(s: Seq<char>, limit: nat) -> nat
    decreases s.len(),
{
    if utf8_len(s) <= limit || s.len() == 0 {
        s.len()
    } else {
        fitting_chars(s.drop_last(), limit)
    }
}

proof fn lemma_fitting_chars(s: Seq<char>, limit: nat, k: int)
    requires
        0 <= k <= s.len(),
        utf8_len(s.take(k)) <= limit,
        k == s.len() || utf8_len(s.take(k + 1)) > limit,
    ensures
        fitting_chars(s, limit) == k,
    decreases s.len(),
{
    assert(s.take(s.len() as int) =~= s);
    if k < s.len() {
        lemma_utf8_len_prefix_monotone(s, k + 1, s.len() as int);
        let d = s.drop_last();
        assert(d.take(k) =~= s.take(k));
        if k + 1 <= d.len() {
            assert(d.take(k + 1) =~= s.take(k + 1));
        }
        lemma_fitting_chars(d, limit, k);
    }
}

/// The text that is stored: at most `MAX_TEXT_SIZE` bytes, cut on a character boundary.
pub open spec fn stored_text(s: Seq<char>) -> Seq<char> {
    s.take(fitting_chars(s, MAX_TEXT_SIZE as nat) as int)
}

/// The preview of a text: its first `max_chars` characters and `…` when it is longer.
pub open spec fn truncated(s: Seq<char>, max_chars: nat) -> Seq<char> {
    if s.len() > max_chars {
        s.take(max_chars as int).push('…')
    } else {
        s
    }
}

/// Truncate a string to `max_chars` characters, appending "…" if truncated.
pub fn truncate_chars(s: &str, max_chars: usize) -> (r: String)
    ensures
        r@ == truncated(s@, max_chars as nat),
{
    let cs = chars_of(s);
    if cs.len() > max_chars {
        let mut r = string_from_char_range(cs.as_slice(), 0, max_chars);
        push_char(&mut r, '…');
        assert(r@ =~= truncated(s@, max_chars as nat));
        r
    } else {
        String::from_str(s)
    }
}

// ---------------------------------------------------------------------------
// Content hash
// ---------------------------------------------------------------------------

/// The BLAKE3 digest of a byte string.
pub uninterp spec fn blake3_digest(data: Seq<u8>) -> Seq<u8>;

/// `blake3::hash`: the 32-byte BLAKE3 digest of `data`.
#[verifier::external_body]
fn blake3_hash(data: &[u8]) -> (r: Vec<u8>)
    ensures
        r@ == blake3_digest(data@),
        r@.len() == 32,
{
    blake3::hash(data).as_bytes().to_vec()
}

/// The lower-case hex digit for `d` (`0 <= d < 16`).
pub open spec fn hex_lower_digit(d: nat) -> char {
    if d < 10 {
        ((d + 48) as u32) as char
    } else {
        ((d + 87) as u32) as char
    }
}

/// Two lower-case hex digits per byte, most significant first (`Hash::to_hex`).
pub open spec fn hex_lower(bytes: Seq<u8>) -> Seq<char>
    decreases bytes.len(),
{
    if bytes.len() == 0 {
        seq![]
    } else {
        hex_lower(bytes.drop_last()) + seq![
            hex_lower_digit(bytes.last() as nat / 16),
            hex_lower_digit(bytes.last() as nat % 16),
        ]
    }
}

fn hex_digit_lower(d: u8) -> (c: char)
    requires
        d < 16,
    ensures
        c == hex_lower_digit(d as nat),
{
    if d < 10 {
        (d + 48) as char
    } else {
        (d + 87) as char
    }
}

/// Lower-case hex rendering of a digest.
pub fn hex_lower_string(bytes: &[u8]) -> (r: String)
    ensures
        r@ == hex_lower(bytes@),
{
    let mut s = String::new();
    let mut i: usize = 0;
    while i < bytes.len()
        invariant
            i <= bytes@.len(),
            s@ == hex_lower(bytes@.take(i as int)),
        decreases bytes@.len() - i,
    {
        let b = bytes[i];
        push_char(&mut s, hex_digit_lower(b / 16));
        push_char(&mut s, hex_digit_lower(b % 16));
        proof {
            assert(bytes@.take(i + 1).drop_last() =~= bytes@.take(i as int));
            assert(bytes@.take(i + 1).last() == b);
            assert(s@ =~= hex_lower(bytes@.take(i + 1)));
        }
        i += 1;
    }
    assert(bytes@.take(bytes@.len() as int) =~= bytes@);
    s
}

/// The content hash of a text: hex BLAKE3 of its UTF-8 bytes.
pub open spec fn text_hash(text: Seq<char>) -> Seq<char> {
    hex_lower(blake3_digest(encode_utf8(text)))
}

/// Compute the BLAKE3 hash of text content, in lower-case hex.
pub fn hash_text(text: &str) -> (r: String)
    ensures
        r@ == text_hash(text@),
{
    let digest = blake3_hash(text.as_bytes());
    hex_lower_string(digest.as_slice())
}

// ---------------------------------------------------------------------------
// Text
// ---------------------------------------------------------------------------

/// What storing a text yields: the text cut to the size limit, its preview,
/// its hash and its UTF-8 size.
pub open spec fn processed_text_ok(p: ProcessedContent, text: Seq<char>) -> bool {
    let kept = stored_text(text);
    &&& p.content_type == ContentType::Text
    &&& p.text_content matches Some(t) && t@ == kept
    &&& p.preview@ == truncated(kept, MAX_PREVIEW_LEN as nat)
    &&& p.file_paths is None
    &&& p.content_hash@ == text_hash(kept)
    &&& p.byte_size == encode_utf8(kept).len()
}

/// Process copied text: cut to `MAX_TEXT_SIZE` bytes on a character
/// boundary, preview, hash and size.
pub fn process_text(text: String) -> (r: ProcessedContent)
    ensures
        processed_text_ok(r, text@),
{
    let ghost full = text@;
    let cs = chars_of(text.as_str());
    let mut k: usize = 0;
    let mut used: usize = 0;
    let mut fits = true;
    proof {
        assert(full.take(0) =~= Seq::<char>::empty());
    }
    while k < cs.len() && fits
        invariant
            cs@ == full,
            k <= cs@.len(),
            used == utf8_len(full.take(k as int)),
            used <= MAX_TEXT_SIZE,
            !fits ==> k < cs@.len() && utf8_len(full.take(k + 1)) > MAX_TEXT_SIZE,
        decreases cs@.len() - k + (if fits { 1int } else { 0int }),
    {
        let c = cs[k];
        let v = c as u32;
        let w: usize = if v < 0x80 {
            1
        } else if v < 0x800 {
            2
        } else if v < 0x10000 {
            3
        } else {
            4
        };
        proof {
            assert(full.take(k + 1).drop_last() =~= full.take(k as int));
            assert(full.take(k + 1).last() == c);
        }
        if used + w <= MAX_TEXT_SIZE {
            used = used + w;
            k += 1;
        } else {
            fits = false;
        }
    }
    proof {
        lemma_fitting_chars(full, MAX_TEXT_SIZE as nat, k as int);
    }
    let text = if k < cs.len() {
        string_from_char_range(cs.as_slice(), 0, k)
    } else {
        text
    };
    proof {
        assert(full.take(full.len() as int) =~= full);
        assert(text@ =~= stored_text(full));
        lemma_utf8_len(text@);
    }
    let preview = truncate_chars(text.as_str(), MAX_PREVIEW_LEN);
    let content_hash = hash_text(text.as_str());
    let byte_size = used as i64;
    ProcessedContent {
        content_type: ContentType::Text,
        text_content: Some(text),
        preview,
        file_paths: None,
        content_hash,
        byte_size,
    }
}

// ---------------------------------------------------------------------------
// Files
// ---------------------------------------------------------------------------

pub open spec fn is_path_sep(c: char) -> bool {
    c == '\\' || c == '/'
}

/// A separator of a path's components: only `\` after a verbatim (`\\?\`)
/// prefix, `\` or `/` otherwise.
pub open spec fn is_sep_in(verbatim: bool, c: char) -> bool {
    c == '\\' || (!verbatim && c == '/')
}

pub open spec fn is_ascii_alpha(c: char) -> bool {
    ('a' <= c && c <= 'z') || ('A' <= c && c <= 'Z')
}

/// End of the separator-free run starting at `i`.
pub open spec fn run_end(p: Seq<char>, i: int, verbatim: bool) -> int
    decreases p.len() - i,
{
    if i >= p.len() {
        p.len() as int
    } else if is_sep_in(verbatim, p[i]) {
        i
    } else {
        run_end(p, i + 1, verbatim)
    }
}

/// The prefix of a Windows path, as `std::path` parses it: its length and
/// whether it is verbatim.
/// - `\\?\UNC\server\share`, `\\?\C:` and `\\?\name` are verbatim; their
///   parts end at `\` only;
/// - `\\.\name` is a device; `\\server\share` (both parts non-empty) a share;
///   `X:` a drive; `/` counts as `\` in these, but not in the `\\?\` itself;
/// - anything else has no prefix.
pub open spec fn path_prefix(p: Seq<char>) -> (int, bool) {
    if p.len() >= 2 && is_path_sep(p[0]) && is_path_sep(p[1]) {
        if p.len() >= 4 && p[0] == '\\' && p[1] == '\\' && p[2] == '?' && p[3] == '\\' {
            if p.len() >= 8 && p[4] == 'U' && p[5] == 'N' && p[6] == 'C' && is_path_sep(p[7]) {
                let server_end = run_end(p, 8, true);
                if server_end >= p.len() {
                    (server_end, true)
                } else {
                    let share_end = run_end(p, server_end + 1, true);
                    if share_end > server_end + 1 {
                        (share_end, true)
                    } else {
                        (server_end, true)
                    }
                }
            } else if p.len() >= 6 && is_ascii_alpha(p[4]) && p[5] == ':' && (p.len() == 6 || p[6]
                == '\\') {
                (6, true)
            } else {
                (run_end(p, 4, true), true)
            }
        } else if p.len() >= 4 && p[2] == '.' && is_path_sep(p[3]) {
            (run_end(p, 4, false), false)
        } else {
            let server_end = run_end(p, 2, false);
            if server_end > 2 && server_end < p.len() {
                let share_end = run_end(p, server_end + 1, false);
                if share_end > server_end + 1 {
                    (share_end, false)
                } else {
                    (0, false)
                }
            } else {
                (0, false)
            }
        }
    } else if p.len() >= 2 && is_ascii_alpha(p[0]) && p[1] == ':' {
        (2, false)
    } else {
        (0, false)
    }
}

/// Start of the component of `p[lo..hi)` that ends at `hi`.
pub open spec fn component_start(p: Seq<char>, lo: int, hi: int, verbatim: bool) -> int
    decreases hi - lo,
{
    if hi <= lo {
        lo
    } else if is_sep_in(verbatim, p[hi - 1]) {
        hi
    } else {
        component_start(p, lo, hi - 1, verbatim)
    }
}

pub proof fn lemma_component_start(p: Seq<char>, lo: int, hi: int, verbatim: bool)
    requires
        lo <= hi,
    ensures
        lo <= component_start(p, lo, hi, verbatim) <= hi,
        hi > lo && !is_sep_in(verbatim, p[hi - 1]) ==> component_start(p, lo, hi, verbatim) < hi,
    decreases hi - lo,
{
    if hi > lo && !is_sep_in(verbatim, p[hi - 1]) {
        lemma_component_start(p, lo, hi - 1, verbatim);
    }
}

/// The last component of `p[lo..hi)` if it is a name, as a range: trailing
/// separators are passed over; a `.` component is passed over too, except
/// after a verbatim prefix where it stands for itself and has no name; a
/// final `..` has no name.
pub open spec fn last_name_range(p: Seq<char>, lo: int, hi: int, verbatim: bool) -> Option<(int, int)>
    decreases hi - lo,
{
    if hi <= lo {
        None
    } else if is_sep_in(verbatim, p[hi - 1]) {
        last_name_range(p, lo, hi - 1, verbatim)
    } else {
        let k = component_start(p, lo, hi, verbatim);
        if hi - k == 1 && p[k] == '.' {
            if verbatim {
                None
            } else {
                proof {
                    lemma_component_start(p, lo, hi, verbatim);
                }
                last_name_range(p, lo, k, verbatim)
            }
        } else if hi - k == 2 && p[k] == '.' && p[k + 1] == '.' {
            None
        } else {
            Some((k, hi))
        }
    }
}

/// The file name of a Windows path (`Path::file_name` on Windows): its last
/// component after the prefix, when that is a name.
pub open spec fn file_name(p: Seq<char>) -> Option<Seq<char>> {
    let (lo, verbatim) = path_prefix(p);
    match last_name_range(p, lo, p.len() as int, verbatim) {
        Some((a, b)) => Some(p.subrange(a, b)),
        None => None,
    }
}

/// The name shown for a path: its file name, or the whole path when it has none.
pub open spec fn shown_name(p: Seq<char>) -> Seq<char> {
    match file_name(p) {
        Some(n) => n,
        None => p,
    }
}

proof fn lemma_component_start_over_name(p: Seq<char>, lo: int, start: int, hi: int)
    requires
        lo < start <= hi <= p.len(),
        is_sep_in(false, p[start - 1]),
        forall|i: int| start <= i < hi ==> !is_sep_in(false, #[trigger] p[i]),
    ensures
        component_start(p, lo, hi, false) == start,
    decreases hi - start,
{
    if hi > start {
        lemma_component_start_over_name(p, lo, start, hi - 1);
    }
}

/// The name shown for a file on a drive is its own name, whatever it looks
/// like: for `d:\n` with `n` a non-empty component (no `\` or `/`, neither
/// `.` nor `..`, possibly starting with a dot) the file name and the shown
/// name are exactly `n`.
pub proof fn lemma_shown_name_of_file_on_drive(d: char, n: Seq<char>)
    requires
        ('a' <= d && d <= 'z') || ('A' <= d && d <= 'Z'),
        n.len() > 0,
        forall|i: int| 0 <= i < n.len() ==> #[trigger] n[i] != '\\' && n[i] != '/',
        n != seq!['.'],
        n != seq!['.', '.'],
    ensures
        file_name(seq![d, ':', '\\'] + n) == Some(n),
        shown_name(seq![d, ':', '\\'] + n) == n,
{
    let p = seq![d, ':', '\\'] + n;
    let len = p.len() as int;
    assert(p[0] == d && p[1] == ':' && p[2] == '\\');
    assert forall|i: int| 3 <= i < len implies !is_sep_in(false, #[trigger] p[i]) by {
        assert(p[i] == n[i - 3]);
    }
    assert(path_prefix(p) == (2int, false));
    lemma_component_start_over_name(p, 2, 3, len);
    assert(!is_sep_in(false, p[len - 1]));
    if n.len() == 1 && p[3] == '.' {
        assert(n =~= seq!['.']);
    }
    if n.len() == 2 && p[3] == '.' && p[4] == '.' {
        assert(n =~= seq!['.', '.']);
    }
    assert(last_name_range(p, 2, len, false) == Some((3int, len)));
    assert(p.subrange(3, len) =~= n);
}

fn is_sep(verbatim: bool, c: char) -> (r: bool)
    ensures
        r == is_sep_in(verbatim, c),
{
    c == '\\' || (!verbatim && c == '/')
}

fn is_alpha(c: char) -> (r: bool)
    ensures
        r == is_ascii_alpha(c),
{
    ('a' <= c && c <= 'z') || ('A' <= c && c <= 'Z')
}

fn find_run_end(p: &[char], i: usize, verbatim: bool) -> (r: usize)
    requires
        i <= p@.len(),
    ensures
        r == run_end(p@, i as int, verbatim),
        i <= r <= p@.len(),
{
    let mut j = i;
    while j < p.len() && !is_sep(verbatim, p[j])
        invariant
            i <= j <= p@.len(),
            run_end(p@, i as int, verbatim) == run_end(p@, j as int, verbatim),
        decreases p@.len() - j,
    {
        j += 1;
    }
    j
}

fn prefix_of(p: &[char]) -> (r: (usize, bool))
    ensures
        (r.0 as int, r.1) == path_prefix(p@),
        r.0 <= p@.len(),
{
    let n = p.len();
    if n >= 2 && is_sep(false, p[0]) && is_sep(false, p[1]) {
        if n >= 4 && p[0] == '\\' && p[1] == '\\' && p[2] == '?' && p[3] == '\\' {
            if n >= 8 && p[4] == 'U' && p[5] == 'N' && p[6] == 'C' && is_sep(false, p[7]) {
                let server_end = find_run_end(p, 8, true);
                if server_end >= n {
                    (server_end, true)
                } else {
                    let share_end = find_run_end(p, server_end + 1, true);
                    if share_end > server_end + 1 {
                        (share_end, true)
                    } else {
                        (server_end, true)
                    }
                }
            } else if n >= 6 && is_alpha(p[4]) && p[5] == ':' && (n == 6 || p[6] == '\\') {
                (6, true)
            } else {
                (find_run_end(p, 4, true), true)
            }
        } else if n >= 4 && p[2] == '.' && is_sep(false, p[3]) {
            (find_run_end(p, 4, false), false)
        } else {
            let server_end = find_run_end(p, 2, false);
            if server_end > 2 && server_end < n {
                let share_end = find_run_end(p, server_end + 1, false);
                if share_end > server_end + 1 {
                    (share_end, false)
                } else {
                    (0, false)
                }
            } else {
                (0, false)
            }
        }
    } else if n >= 2 && is_alpha(p[0]) && p[1] == ':' {
        (2, false)
    } else {
        (0, false)
    }
}

fn find_last_name(p: &[char], lo: usize, hi: usize, verbatim: bool) -> (r: Option<(usize, usize)>)
    requires
        lo <= hi <= p@.len(),
    ensures
        match r {
            Some((a, b)) => last_name_range(p@, lo as int, hi as int, verbatim) == Some(
                (a as int, b as int),
            ) && lo <= a <= b <= hi,
            None => last_name_range(p@, lo as int, hi as int, verbatim) is None,
        },
    decreases hi - lo,
{
    if hi <= lo {
        return None;
    }
    if is_sep(verbatim, p[hi - 1]) {
        return find_last_name(p, lo, hi - 1, verbatim);
    }
    let mut k = hi - 1;
    while k > lo && !is_sep(verbatim, p[k - 1])
        invariant
            lo <= k < hi <= p@.len(),
            component_start(p@, lo as int, hi as int, verbatim) == component_start(
                p@,
                lo as int,
                k as int + 1,
                verbatim,
            ),
            !is_sep_in(verbatim, p@[k as int]),
        decreases k,
    {
        k -= 1;
    }
    proof {
        assert(component_start(p@, lo as int, k as int + 1, verbatim) == component_start(
            p@,
            lo as int,
            k as int,
            verbatim,
        ));
        lemma_component_start(p@, lo as int, hi as int, verbatim);
    }
    assert(component_start(p@, lo as int, hi as int, verbatim) == k);
    if hi - k == 1 && p[k] == '.' {
        if verbatim {
            None
        } else {
            find_last_name(p, lo, k, verbatim)
        }
    } else if hi - k == 2 && p[k] == '.' && p[k + 1] == '.' {
        None
    } else {
        Some((k, hi))
    }
}

/// The name shown for a copied path: its file name, or the path itself.
pub fn path_display_name(path: &str) -> (r: String)
    ensures
        r@ == shown_name(path@),
{
    let cs = chars_of(path);
    let (lo, verbatim) = prefix_of(cs.as_slice());
    match find_last_name(cs.as_slice(), lo, cs.len(), verbatim) {
        Some((a, b)) => string_from_char_range(cs.as_slice(), a, b),
        None => String::from_str(path),
    }
}

/// " (+"
pub open spec fn more_open() -> Seq<char> {
    seq![' ', '(', '+']
}

/// The preview of a file list: the first file's name, and `(+n)` for the others.
pub open spec fn files_preview(paths: Seq<Seq<char>>) -> Seq<char>
    recommends
        paths.len() >= 1,
{
    if paths.len() == 1 {
        shown_name(paths[0])
    } else {
        shown_name(paths[0]) + more_open() + decimal((paths.len() - 1) as nat) + seq![')']
    }
}

/// `s` sorted in the order of `str` (insertion in input order).
pub open spec fn sorted_strs(s: Seq<Seq<char>>) -> Seq<Seq<char>>
    decreases s.len(),
{
    if s.len() == 0 {
        seq![]
    } else {
        let before = sorted_strs(s.drop_last());
        before.insert(sorted_insert_pos(before, s.last()), s.last())
    }
}

/// `sorted_strs` sorts, and keeps every element as often as it was there.
pub proof fn lemma_sorted_strs(s: Seq<Seq<char>>)
    ensures
        vstd::relations::sorted_by(sorted_strs(s), str_order()),
        sorted_strs(s).to_multiset() == s.to_multiset(),
    decreases s.len(),
{
    broadcast use vstd::seq_lib::group_to_multiset_ensures;

    if s.len() == 0 {
        assert(s =~= Seq::<Seq<char>>::empty());
    } else {
        let before = sorted_strs(s.drop_last());
        lemma_sorted_strs(s.drop_last());
        let x = s.last();
        let p = sorted_insert_pos(before, x);
        lemma_sorted_insert_pos(before, x);
        let r = before.insert(p, x);
        assert(r == sorted_strs(s));
        before.insert_ensures(p, x);
        assert forall|i: int, j: int| 0 <= i < j < r.len() implies #[trigger] str_order()(
            r[i],
            r[j],
        ) by {
            if j < p {
                assert(str_order()(before[i], before[j]));
            } else if j == p {
                assert(str_le(before[i], x));
            } else if i < p {
                assert(str_order()(before[i], before[j - 1]));
            } else if i == p {
                assert(lex_lt(x, before[j - 1]));
                lemma_lex_lt_asymmetric(x, before[j - 1]);
            } else {
                assert(str_order()(before[i - 1], before[j - 1]));
            }
        }
        assert(s =~= s.drop_last().push(x));
    }
}

/// The content hash of a file list does not depend on the order in which
/// the files were copied: lists holding the same paths, each as often, hash
/// the same.
pub proof fn lemma_files_hash_order_independent(p: Seq<Seq<char>>, q: Seq<Seq<char>>)
    requires
        p.to_multiset() == q.to_multiset(),
    ensures
        sorted_strs(p) == sorted_strs(q),
        files_hash(p) == files_hash(q),
{
    lemma_sorted_strs(p);
    lemma_sorted_strs(q);
    lemma_str_order_total();
    vstd::seq_lib::lemma_sorted_unique(sorted_strs(p), sorted_strs(q), str_order());
}

/// "\0"
pub open spec fn nul_sep() -> Seq<char> {
    seq!['\0']
}

/// The content hash of a file list: hex BLAKE3 of the sorted paths joined by NUL.
pub open spec fn files_hash(paths: Seq<Seq<char>>) -> Seq<char> {
    text_hash(join(sorted_strs(paths), nul_sep()))
}

/// Sum of the sizes.
pub open spec fn size_sum(sizes: Seq<i64>) -> int
    decreases sizes.len(),
{
    if sizes.len() == 0 {
        0
    } else {
        size_sum(sizes.drop_last()) + sizes.last()
    }
}

fn sorted_paths(paths: &[String]) -> (r: Vec<String>)
    ensures
        string_views(r@) == sorted_strs(string_views(paths@)),
{
    let ghost pv = string_views(paths@);
    let mut out: Vec<String> = Vec::new();
    let mut k: usize = 0;
    while k < paths.len()
        invariant
            k <= paths@.len(),
            pv == string_views(paths@),
            string_views(out@) == sorted_strs(pv.take(k as int)),
        decreases paths@.len() - k,
    {
        let ghost before = string_views(out@);
        let x = chars_of(paths[k].as_str());
        let mut pos: usize = out.len();
        let mut found = false;
        assert(before.take(out@.len() as int) =~= before);
        while pos > 0 && !found
            invariant
                pos <= out@.len(),
                before == string_views(out@),
                x@ == paths@[k as int]@,
                found ==> pos > 0 && !lex_lt(x@, before[pos - 1]),
                sorted_insert_pos(before, x@) == sorted_insert_pos(before.take(pos as int), x@),
            decreases pos + (if found { 0int } else { 1int }),
        {
            let other = chars_of(out[pos - 1].as_str());
            proof {
                assert(before.take(pos as int).last() == other@);
                assert(before.take(pos as int).drop_last() =~= before.take(pos - 1));
            }
            if chars_lt(x.as_slice(), other.as_slice()) {
                pos -= 1;
            } else {
                found = true;
            }
        }
        proof {
            assert(before.take(0) =~= Seq::<Seq<char>>::empty());
            assert(sorted_insert_pos(before, x@) == pos as int);
            let t = pv.take(k + 1);
            assert(t.drop_last() =~= pv.take(k as int));
            assert(t.last() == x@);
        }
        out.insert(pos, paths[k].clone());
        proof {
            assert(string_views(out@) =~= before.insert(pos as int, x@));
        }
        k += 1;
    }
    assert(pv.take(paths@.len() as int) =~= pv);
    out
}

/// What storing a file list yields.
pub open spec fn processed_files_ok(p: ProcessedContent, paths: Seq<Seq<char>>, sizes: Seq<i64>) -> bool {
    &&& p.content_type == ContentType::File
    &&& p.text_content is None
    &&& p.preview@ == files_preview(paths)
    &&& p.file_paths matches Some(f) && string_views(f@) == paths
    &&& p.content_hash@ == files_hash(paths)
    &&& p.byte_size == size_sum(sizes)
}

/// Process a copied file list. `file_sizes` holds the size of each file as
/// read from the file system (0 when it could not be read).
pub fn process_files(paths: Vec<String>, source_app: Option<&str>, file_sizes: &[i64]) -> (r:
    ProcessedContent)
    requires
        paths@.len() >= 1,
        file_sizes@.len() == paths@.len(),
        forall|i: int| 0 <= i < file_sizes@.len() ==> file_sizes@[i] >= 0,
        size_sum(file_sizes@) <= i64::MAX,
    ensures
        processed_files_ok(r, string_views(paths@), file_sizes@),
{
    let ghost pv = string_views(paths@);
    let first = path_display_name(paths[0].as_str());
    let preview = if paths.len() == 1 {
        first
    } else {
        let mut s = first;
        s.append(" (+");
        let more = decimal_string((paths.len() - 1) as u64);
        s.append(more.as_str());
        s.append(")");
        proof {
            reveal_strlit(" (+");
            reveal_strlit(")");
        }
        s
    };
    assert(preview@ =~= files_preview(pv));
    let sorted = sorted_paths(paths.as_slice());
    let joined = crate::text::join_strings(sorted.as_slice(), "\0");
    proof {
        reveal_strlit("\0");
        assert("\0"@ =~= nul_sep());
    }
    let content_hash = hash_text(joined.as_str());
    let mut total: i64 = 0;
    let mut i: usize = 0;
    while i < file_sizes.len()
        invariant
            i <= file_sizes@.len(),
            forall|j: int| 0 <= j < file_sizes@.len() ==> file_sizes@[j] >= 0,
            size_sum(file_sizes@) <= i64::MAX,
            total == size_sum(file_sizes@.take(i as int)),
        decreases file_sizes@.len() - i,
    {
        proof {
            assert(file_sizes@.take(i + 1).drop_last() =~= file_sizes@.take(i as int));
            lemma_size_sum_prefix(file_sizes@, i + 1);
        }
        total = total + file_sizes[i];
        i += 1;
    }
    assert(file_sizes@.take(file_sizes@.len() as int) =~= file_sizes@);
    ProcessedContent {
        content_type: ContentType::File,
        text_content: None,
        preview,
        file_paths: Some(paths),
        content_hash,
        byte_size: total,
    }
}

proof fn lemma_size_sum_prefix(s: Seq<i64>, k: int)
    requires
        0 <= k <= s.len(),
        forall|j: int| 0 <= j < s.len() ==> s[j] >= 0,
    ensures
        0 <= size_sum(s.take(k)) <= size_sum(s),
    decreases s.len(),
{
    assert(s.take(s.len() as int) =~= s);
    if k < s.len() {
        lemma_size_sum_prefix(s.drop_last(), k);
        assert(s.drop_last().take(k) =~= s.take(k));
    } else if s.len() > 0 {
        lemma_size_sum_prefix(s.drop_last(), k - 1);
        assert(s.drop_last().take(k - 1) =~= s.drop_last());
    }
}

/// What processing raw clipboard content yields.
pub open spec fn processed_ok(p: ProcessedContent, raw: RawClipboardContent, sizes: Seq<i64>) -> bool {
    match raw {
        RawClipboardContent::Text(t) => processed_text_ok(p, t@),
        RawClipboardContent::Files(paths) => processed_files_ok(p, string_views(paths@), sizes),
    }
}

/// Process raw clipboard content: truncate, preview, hash. For a file list,
/// `file_sizes` holds the size read for each file.
pub fn process(raw: RawClipboardContent, source_app: Option<&str>, file_sizes: &[i64]) -> (r:
    ProcessedContent)
    requires
        raw matches RawClipboardContent::Files(paths) ==> {
            &&& paths@.len() >= 1
            &&& file_sizes@.len() == paths@.len()
            &&& forall|i: int| 0 <= i < file_sizes@.len() ==> file_sizes@[i] >= 0
            &&& size_sum(file_sizes@) <= i64::MAX
        },
    ensures
        processed_ok(r, raw, file_sizes@),
{
    match raw {
        RawClipboardContent::Text(text) => process_text(text),
        RawClipboardContent::Files(paths) => process_files(paths, source_app, file_sizes),
    }
}

} // verus!
