//! UTF-16 text as the Win32 API takes and returns it.
use vstd::prelude::*;

use crate::text::push_char;
use crate::text::char_from_u32;

verus! {

/// U+FFFD REPLACEMENT CHARACTER.
pub open spec fn replacement() -> char {
    0xFFFDu32 as char
}

pub open spec fn is_high_surrogate(u: u16) -> bool {
    0xD800 <= u <= 0xDBFF
}

pub open spec fn is_low_surrogate(u: u16) -> bool {
    0xDC00 <= u <= 0xDFFF
}

pub open spec fn is_surrogate(u: u16) -> bool {
    0xD800 <= u <= 0xDFFF
}

/// The code point that a high/low surrogate pair stands for.
pub open spec fn pair_value(hi: u16, lo: u16) -> u32 {
    (0x10000 + (hi - 0xD800) * 0x400 + (lo - 0xDC00)) as u32
}

/// Lossy UTF-16 decoding (`String::from_utf16_lossy`): a valid pair gives one
/// character, any unpaired surrogate gives U+FFFD, every other unit is itself.
pub open spec fn utf16_decode(s: Seq<u16>) -> Seq<char>
    decreases s.len(),
{
    if s.len() == 0 {
        seq![]
    } else if is_high_surrogate(s[0]) && s.len() >= 2 && is_low_surrogate(s[1]) {
        seq![pair_value(s[0], s[1]) as char] + utf16_decode(s.skip(2))
    } else if is_surrogate(s[0]) {
        seq![replacement()] + utf16_decode(s.skip(1))
    } else {
        seq![(s[0] as u32) as char] + utf16_decode(s.skip(1))
    }
}

/// The UTF-16 code units of one character.
pub open spec fn utf16_of_char(c: char) -> Seq<u16> {
    let v = c as u32;
    if v < 0x10000 {
        seq![v as u16]
    } else {
        seq![(0xD800 + (v - 0x10000) / 0x400) as u16, (0xDC00 + (v - 0x10000) % 0x400) as u16]
    }
}

/// UTF-16 encoding (`str::encode_utf16`).
pub open spec fn utf16_encode(s: Seq<char>) -> Seq<u16>
    decreases s.len(),
{
    if s.len() == 0 {
        seq![]
    } else {
        utf16_encode(s.drop_last()) + utf16_of_char(s.last())
    }
}

/// UTF-16 encoding followed by a terminating NUL, as Win32 string parameters take it.
pub open spec fn wide_null_spec(s: Seq<char>) -> Seq<u16> {
    utf16_encode(s).push(0u16)
}

proof fn lemma_utf16_encode_push(s: Seq<char>, c: char)
    ensures
        utf16_encode(s.push(c)) == utf16_encode(s) + utf16_of_char(c),
{
    assert(s.push(c).drop_last() =~= s);
}

/// Encoding distributes over concatenation.
pub proof fn lemma_utf16_encode_concat(a: Seq<char>, b: Seq<char>)
    ensures
        utf16_encode(a + b) == utf16_encode(a) + utf16_encode(b),
    decreases b.len(),
{
    if b.len() == 0 {
        assert(a + b =~= a);
        assert(utf16_encode(a) + utf16_encode(b) =~= utf16_encode(a));
    } else {
        lemma_utf16_encode_concat(a, b.drop_last());
        assert((a + b).drop_last() =~= a + b.drop_last());
        assert((a + b).last() == b.last());
        assert(utf16_encode(a) + utf16_encode(b) =~= utf16_encode(a) + utf16_encode(b.drop_last())
            + utf16_of_char(b.last()));
    }
}

proof fn lemma_char_units(c: char)
    ensures
        (c as u32) < 0x10000 ==> !is_surrogate(utf16_of_char(c)[0]) && utf16_of_char(c).len() == 1
            && (utf16_of_char(c)[0] as u32) as char == c,
        (c as u32) >= 0x10000 ==> utf16_of_char(c).len() == 2 && is_high_surrogate(
            utf16_of_char(c)[0],
        ) && is_low_surrogate(utf16_of_char(c)[1]) && pair_value(
            utf16_of_char(c)[0],
            utf16_of_char(c)[1],
        ) as char == c,
{
    vstd::utf8::char_is_scalar(c);
    let v = c as u32;
    vstd::utf8::char_u32_cast(c, v);
    if v >= 0x10000 {
        let hi = (0xD800 + (v - 0x10000) / 0x400) as u16;
        let lo = (0xDC00 + (v - 0x10000) % 0x400) as u16;
        assert(v <= 0x10FFFF);
        assert(0x10000 + (hi - 0xD800) * 0x400 + (lo - 0xDC00) == v) by (nonlinear_arith)
            requires
                hi == 0xD800 + (v - 0x10000) / 0x400,
                lo == 0xDC00 + (v - 0x10000) % 0x400,
                0x10000 <= v <= 0x10FFFF,
        ;
    }
}

/// Decoding what was encoded gives the characters back.
pub proof fn lemma_utf16_roundtrip(s: Seq<char>)
    ensures
        utf16_decode(utf16_encode(s)) == s,
    decreases s.len(),
{
    if s.len() > 0 {
        let rest = s.drop_first();
        lemma_utf16_roundtrip(rest);
        assert(s =~= seq![s[0]] + rest);
        lemma_utf16_encode_concat(seq![s[0]], rest);
        assert(seq![s[0]].drop_last() =~= Seq::<char>::empty());
        let units = utf16_of_char(s[0]);
        assert(seq![s[0]].last() == s[0]);
        assert(utf16_encode(seq![s[0]].drop_last()) =~= Seq::<u16>::empty());
        assert(utf16_encode(seq![s[0]]) =~= units);
        let e = utf16_encode(s);
        assert(e == units + utf16_encode(rest));
        lemma_char_units(s[0]);
        if (s[0] as u32) < 0x10000 {
            assert(e.skip(1) =~= utf16_encode(rest));
        } else {
            assert(e.skip(2) =~= utf16_encode(rest));
        }
    }
}

/// The UTF-16 code units of `s` (`s.encode_utf16().collect()`).
pub fn utf16_units(s: &str) -> (r: Vec<u16>)
    ensures
        r@ == utf16_encode(s@),
{
    let mut out: Vec<u16> = Vec::new();
    broadcast use vstd::string::group_string_axioms;

    for c in it: s.chars()
        invariant
            it.seq() == s@,
            out@ == utf16_encode(s@.take(it.index())),
    {
        let ghost before = s@.take(it.index());
        let v = c as u32;
        proof {
            vstd::utf8::char_is_scalar(c);
        }
        if v < 0x10000 {
            out.push(v as u16);
        } else {
            let hi = (0xD800 + (v - 0x10000) / 0x400) as u16;
            let lo = (0xDC00 + (v - 0x10000) % 0x400) as u16;
            out.push(hi);
            out.push(lo);
        }
        proof {
            assert(s@.take(it.index() + 1) =~= before.push(c));
            lemma_utf16_encode_push(before, c);
            assert(out@ =~= utf16_encode(before) + utf16_of_char(c));
        }
    }
    proof {
        assert(s@.take(s@.len() as int) =~= s@);
    }
    out
}

/// `s` as a NUL-terminated UTF-16 string.
pub fn wide_null(s: &str) -> (r: Vec<u16>)
    ensures
        r@ == wide_null_spec(s@),
{
    let mut out = utf16_units(s);
    out.push(0);
    out
}

/// Lossy decoding of UTF-16 units (`String::from_utf16_lossy`).
pub fn utf16_to_string(units: &[u16]) -> (r: String)
    ensures
        r@ == utf16_decode(units@),
{
    let mut out = String::new();
    let mut i: usize = 0;
    assert(units@.skip(0) =~= units@);
    while i < units.len()
        invariant
            i <= units@.len(),
            out@ + utf16_decode(units@.skip(i as int)) == utf16_decode(units@),
        decreases units@.len() - i,
    {
        let ghost rest = units@.skip(i as int);
        let u = units[i];
        if 0xD800 <= u && u <= 0xDBFF && i + 1 < units.len() && 0xDC00 <= units[i + 1]
            && units[i + 1] <= 0xDFFF {
            let lo = units[i + 1];
            let v: u32 = 0x10000 + ((u - 0xD800) as u32) * 0x400 + ((lo - 0xDC00) as u32);
            proof {
                assert(rest.skip(2) =~= units@.skip(i + 2));
                assert(v == pair_value(u, lo));
            }
            match char_from_u32(v) {
                Some(c) => push_char(&mut out, c),
                None => {
                    proof {
                        assert(vstd::utf8::is_scalar(v));
                    }
                },
            }
            i += 2;
            proof {
                assert(out@ + utf16_decode(units@.skip(i as int)) =~= (out@.drop_last() + seq![
                    pair_value(u, lo) as char,
                ]) + utf16_decode(rest.skip(2)));
            }
        } else if 0xD800 <= u && u <= 0xDFFF {
            push_char(&mut out, '\u{FFFD}');
            i += 1;
            proof {
                assert(rest.skip(1) =~= units@.skip(i as int));
                assert('\u{FFFD}' == replacement());
            }
        } else {
            let v = u as u32;
            match char_from_u32(v) {
                Some(c) => push_char(&mut out, c),
                None => {
                    proof {
                        assert(vstd::utf8::is_scalar(v));
                    }
                },
            }
            i += 1;
            proof {
                assert(rest.skip(1) =~= units@.skip(i as int));
            }
        }
    }
    proof {
        assert(units@.skip(units@.len() as int) =~= Seq::<u16>::empty());
        assert(out@ + Seq::<char>::empty() =~= out@);
    }
    out
}

/// The units of `buf` before its first NUL (all of them when there is none).
pub open spec fn until_nul(buf: Seq<u16>) -> Seq<u16> {
    match first_nul(buf) {
        Some(k) => buf.take(k),
        None => buf,
    }
}

/// The position of the first NUL unit.
pub open spec fn first_nul(buf: Seq<u16>) -> Option<int> {
    if exists|k: int| 0 <= k < buf.len() && buf[k] == 0 {
        Some(
            choose|k: int|
                0 <= k < buf.len() && buf[k] == 0 && forall|j: int| 0 <= j < k ==> buf[j] != 0,
        )
    } else {
        None
    }
}

/// Length of the NUL-terminated prefix (`iter().position(|&c| c == 0).unwrap_or(len)`).
pub fn nul_position(buf: &[u16]) -> (r: usize)
    ensures
        r <= buf@.len(),
        forall|j: int| 0 <= j < r ==> buf@[j] != 0,
        r < buf@.len() ==> buf@[r as int] == 0,
        buf@.take(r as int) == until_nul(buf@),
{
    let mut i: usize = 0;
    while i < buf.len()
        invariant
            i <= buf@.len(),
            forall|j: int| 0 <= j < i ==> buf@[j] != 0,
        decreases buf@.len() - i,
    {
        if buf[i] == 0 {
            proof {
                assert(0 <= i < buf@.len() && buf@[i as int] == 0 && forall|j: int|
                    0 <= j < i ==> buf@[j] != 0);
                let k = choose|k: int|
                    0 <= k < buf@.len() && buf@[k] == 0 && forall|j: int| 0 <= j < k ==> buf@[j] != 0;
                assert(k == i as int) by {
                    if k < i {
                        assert(buf@[k] != 0);
                    }
                    if k > i {
                        assert(buf@[i as int] != 0);
                    }
                }
            }
            return i;
        }
        i += 1;
    }
    assert(buf@.take(buf@.len() as int) =~= buf@);
    i
}

} // verus!
