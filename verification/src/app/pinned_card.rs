//! The title of a clipboard entry pinned to the screen in a window of its own.
use vstd::prelude::*;

use crate::clipboard::ClipboardItem;
use crate::text::{chars_of, push_char, string_from_char_range, trim, trimmed_bounds};

verus! {

/// Most characters of the entry's text kept in the title.
pub const TITLE_MAX_CHARS: usize = 48;

/// The text before the first line break (`str::lines().next()`): up to the
/// first `'\n'`, without the `'\r'` of a `"\r\n"`; all of `s` when it holds
/// no `'\n'`.
pub open spec fn first_line(s: Seq<char>) -> Seq<char> {
    if exists|i: int| 0 <= i < s.len() && s[i] == '\n' {
        let e = choose|i: int|
            0 <= i < s.len() && s[i] == '\n' && forall|j: int| 0 <= j < i ==> s[j] != '\n';
        if e > 0 && s[e - 1] == '\r' {
            s.take(e - 1)
        } else {
            s.take(e)
        }
    } else {
        s
    }
}

/// The pinned window's title for an entry previewed as `preview`: its first
/// line, trimmed, cut to 48 characters, with `'…'` appended when the whole
/// preview is longer than 48 characters; `untitled` when that leaves nothing.
pub open spec fn pinned_title(preview: Seq<char>, untitled: Seq<char>) -> Seq<char> {
    let line = trim(first_line(preview));
    let cut = if line.len() > TITLE_MAX_CHARS {
        line.take(TITLE_MAX_CHARS as int)
    } else {
        line
    };
    let marked = if preview.len() > TITLE_MAX_CHARS {
        cut.push('…')
    } else {
        cut
    };
    if marked.len() == 0 {
        untitled
    } else {
        marked
    }
}

/// Index of the first `'\n'` in `cs`, or its length.
fn line_end(cs: &[char]) -> (r: usize)
    ensures
        r <= cs@.len(),
        forall|j: int| 0 <= j < r ==> cs@[j] != '\n',
        r < cs@.len() ==> cs@[r as int] == '\n',
{
    let mut i: usize = 0;
    while i < cs.len()
        invariant
            i <= cs@.len(),
            forall|j: int| 0 <= j < i ==> cs@[j] != '\n',
        decreases cs@.len() - i,
    {
        if cs[i] == '\n' {
            return i;
        }
        i += 1;
    }
    i
}

/// Window title for a pinned entry; `untitled` is the (localized) title used
/// when the entry's first line is blank.
pub fn window_title_for_item(item: &ClipboardItem, untitled: &str) -> (r: String)
    ensures
        r@ == pinned_title(item.preview@, untitled@),
{
    let cs = chars_of(item.preview.as_str());
    let n = cs.len();
    let e = line_end(cs.as_slice());
    let stop = if e < n && e > 0 && cs[e - 1] == '\r' {
        e - 1
    } else {
        e
    };
    proof {
        let s = cs@;
        if e < n {
            assert(exists|i: int| 0 <= i < s.len() && s[i] == '\n');
            let k = choose|i: int|
                0 <= i < s.len() && s[i] == '\n' && forall|j: int| 0 <= j < i ==> s[j] != '\n';
            assert(k == e) by {
                if k < e {
                    assert(s[k] != '\n');
                }
                if k > e {
                    assert(s[e as int] != '\n');
                }
            }
            assert(s.take(stop as int) =~= s.subrange(0, stop as int));
        } else {
            assert(!exists|i: int| 0 <= i < s.len() && s[i] == '\n');
            assert(s =~= s.subrange(0, n as int));
        }
        assert(first_line(item.preview@) == s.subrange(0, stop as int));
    }
    let (a, b) = trimmed_bounds(cs.as_slice(), 0, stop);
    let ghost line = cs@.subrange(a as int, b as int);
    let cut_end = if b - a > TITLE_MAX_CHARS {
        a + TITLE_MAX_CHARS
    } else {
        b
    };
    let mut title = string_from_char_range(cs.as_slice(), a, cut_end);
    proof {
        if b - a > TITLE_MAX_CHARS {
            assert(title@ =~= line.take(TITLE_MAX_CHARS as int));
        } else {
            assert(title@ =~= line);
        }
    }
    if n > TITLE_MAX_CHARS {
        push_char(&mut title, '…');
    }
    if cut_end == a && n <= TITLE_MAX_CHARS {
        return untitled.to_owned();
    }
    title
}

} // verus!
