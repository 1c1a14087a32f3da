//! Character-level helpers shared by the library: building strings, decimal
//! rendering, ordering of strings, joining, and the character classes the
//! process-name rules rely on.
use vstd::prelude::*;

verus! {

// ---------------------------------------------------------------------------
// Building strings
// ---------------------------------------------------------------------------

/// `String::push`: appends one character.
#[verifier::external_body]
pub fn push_char(s: &mut String, c: char)
    ensures
        final(s)@ == old(s)@.push(c),
{
    s.push(c);
}

/// `char::from_u32`: the character with the given code point, if it is a Unicode scalar value.
#[verifier::external_body]
pub fn char_from_u32(v: u32) -> (r: Option<char>)
    ensures
        r == (if vstd::utf8::is_scalar(v) { Some(v as char) } else { None::<char> }),
{
    char::from_u32(v)
}

/// The characters of `s`, in order.
pub fn chars_of(s: &str) -> (r: Vec<char>)
    ensures
        r@ == s@,
{
    let mut out: Vec<char> = Vec::new();
    broadcast use vstd::string::group_string_axioms;

    for c in it: s.chars()
        invariant
            it.seq() == s@,
            out@ == s@.take(it.index()),
    {
        out.push(c);
    }
    out
}

/// A `String` holding exactly the characters of `cs`.
pub fn string_from_chars(cs: &[char]) -> (r: String)
    ensures
        r@ == cs@,
{
    let mut out = String::new();
    let mut i: usize = 0;
    while i < cs.len()
        invariant
            i <= cs@.len(),
            out@ == cs@.take(i as int),
        decreases cs@.len() - i,
    {
        push_char(&mut out, cs[i]);
        i += 1;
        assert(out@ =~= cs@.take(i as int));
    }
    assert(cs@.take(cs@.len() as int) =~= cs@);
    out
}

/// A `String` holding the characters of `cs` in `[from, to)`.
pub fn string_from_char_range(cs: &[char], from: usize, to: usize) -> (r: String)
    requires
        from <= to <= cs@.len(),
    ensures
        r@ == cs@.subrange(from as int, to as int),
{
    let mut out = String::new();
    let mut i: usize = from;
    while i < to
        invariant
            from <= i <= to <= cs@.len(),
            out@ == cs@.subrange(from as int, i as int),
        decreases to - i,
    {
        push_char(&mut out, cs[i]);
        i += 1;
        assert(out@ =~= cs@.subrange(from as int, i as int));
    }
    out
}

// ---------------------------------------------------------------------------
// Decimal rendering
// ---------------------------------------------------------------------------

/// The ASCII digit for `d` (`0 <= d < 10`).
pub open spec fn digit_char(d: nat) -> char {
    ((d + 48) as u32) as char
}

/// The decimal rendering of `n`, without leading zeros (`"0"` for zero).
pub open spec fn decimal(n: nat) -> Seq<char>
    decreases n,
{
    if n < 10 {
        seq![digit_char(n)]
    } else {
        decimal(n / 10).push(digit_char(n % 10))
    }
}

fn digit(d: u64) -> (c: char)
    requires
        d < 10,
    ensures
        c == digit_char(d as nat),
{
    let b: u8 = (d as u8) + 48;
    b as char
}

/// Renders `n` in decimal, as `format!("{}", n)` does.
pub fn decimal_string(n: u64) -> (r: String)
    ensures
        r@ == decimal(n as nat),
    decreases n,
{
    if n < 10 {
        let mut s = String::new();
        push_char(&mut s, digit(n));
        s
    } else {
        let mut s = decimal_string(n / 10);
        push_char(&mut s, digit(n % 10));
        s
    }
}

// ---------------------------------------------------------------------------
// Ordering of strings (the order of `str::cmp`: code points, lexicographic)
// ---------------------------------------------------------------------------

/// `a` sorts strictly before `b` in the lexicographic order of code points.
pub open spec fn lex_lt(a: Seq<char>, b: Seq<char>) -> bool
    decreases a.len(),
{
    if a.len() == 0 {
        b.len() > 0
    } else if b.len() == 0 {
        false
    } else if a[0] != b[0] {
        (a[0] as u32) < (b[0] as u32)
    } else {
        lex_lt(a.drop_first(), b.drop_first())
    }
}

pub proof fn lemma_lex_lt_irreflexive(a: Seq<char>)
    ensures
        !lex_lt(a, a),
    decreases a.len(),
{
    if a.len() > 0 {
        lemma_lex_lt_irreflexive(a.drop_first());
    }
}

pub proof fn lemma_lex_lt_transitive(a: Seq<char>, b: Seq<char>, c: Seq<char>)
    requires
        lex_lt(a, b),
        lex_lt(b, c),
    ensures
        lex_lt(a, c),
    decreases a.len(),
{
    if a.len() > 0 && b.len() > 0 && c.len() > 0 {
        vstd::utf8::char_u32_cast(a[0], a[0] as u32);
        vstd::utf8::char_u32_cast(b[0], b[0] as u32);
        vstd::utf8::char_u32_cast(c[0], c[0] as u32);
        if a[0] == b[0] && b[0] == c[0] {
            lemma_lex_lt_transitive(a.drop_first(), b.drop_first(), c.drop_first());
        }
    }
}

pub proof fn lemma_lex_lt_total(a: Seq<char>, b: Seq<char>)
    ensures
        a == b || lex_lt(a, b) || lex_lt(b, a),
    decreases a.len(),
{
    if a.len() > 0 && b.len() > 0 {
        vstd::utf8::char_u32_cast(a[0], a[0] as u32);
        vstd::utf8::char_u32_cast(b[0], b[0] as u32);
        if a[0] == b[0] {
            lemma_lex_lt_total(a.drop_first(), b.drop_first());
            if a.drop_first() == b.drop_first() {
                assert(a =~= seq![a[0]] + a.drop_first());
                assert(b =~= seq![b[0]] + b.drop_first());
            }
        }
    } else if a.len() == 0 && b.len() == 0 {
        assert(a =~= b);
    }
}

pub proof fn lemma_lex_lt_asymmetric(a: Seq<char>, b: Seq<char>)
    requires
        lex_lt(a, b),
    ensures
        !lex_lt(b, a),
{
    if lex_lt(b, a) {
        lemma_lex_lt_transitive(a, b, a);
        lemma_lex_lt_irreflexive(a);
    }
}

/// Where a sorted insertion puts `x`: after every element that does not sort after it.
pub open spec fn sorted_insert_pos(s: Seq<Seq<char>>, x: Seq<char>) -> int
    decreases s.len(),
{
    if s.len() == 0 {
        0
    } else if lex_lt(x, s.last()) {
        sorted_insert_pos(s.drop_last(), x)
    } else {
        s.len() as int
    }
}

/// `a` sorts no later than `b` in the order of `str`.
pub open spec fn str_le(a: Seq<char>, b: Seq<char>) -> bool {
    !lex_lt(b, a)
}

/// The order of `str` as a relation.
pub open spec fn str_order() -> spec_fn(Seq<char>, Seq<char>) -> bool {
    |a: Seq<char>, b: Seq<char>| str_le(a, b)
}

/// The order of `str` is a total order: reflexive, antisymmetric, transitive
/// and total.
pub proof fn lemma_str_order_total()
    ensures
        vstd::relations::total_ordering(str_order()),
{
    let le = str_order();
    assert forall|x: Seq<char>| #[trigger] le(x, x) by {
        lemma_lex_lt_irreflexive(x);
    }
    assert forall|x: Seq<char>, y: Seq<char>| #[trigger] le(x, y) && #[trigger] le(y, x) implies x
        == y by {
        lemma_lex_lt_total(x, y);
    }
    assert forall|x: Seq<char>, y: Seq<char>, z: Seq<char>| #[trigger]
        le(x, y) && #[trigger] le(y, z) implies le(x, z) by {
        lemma_lex_lt_total(x, y);
        if lex_lt(z, x) && lex_lt(x, y) {
            lemma_lex_lt_transitive(z, x, y);
        }
    }
    assert forall|x: Seq<char>, y: Seq<char>| #[trigger] le(x, y) || #[trigger] le(y, x) by {
        if lex_lt(y, x) {
            lemma_lex_lt_asymmetric(y, x);
        }
    }
}

/// Where a sorted insertion puts `x` in a sorted list: everything before
/// sorts no later than `x`, everything from there on strictly after it.
pub proof fn lemma_sorted_insert_pos(s: Seq<Seq<char>>, x: Seq<char>)
    requires
        vstd::relations::sorted_by(s, str_order()),
    ensures
        0 <= sorted_insert_pos(s, x) <= s.len(),
        forall|k: int| 0 <= k < sorted_insert_pos(s, x) ==> str_le(#[trigger] s[k], x),
        forall|k: int| sorted_insert_pos(s, x) <= k < s.len() ==> lex_lt(x, #[trigger] s[k]),
    decreases s.len(),
{
    if s.len() > 0 {
        let t = s.drop_last();
        assert(vstd::relations::sorted_by(t, str_order())) by {
            assert forall|i: int, j: int| 0 <= i < j < t.len() implies #[trigger] str_order()(
                t[i],
                t[j],
            ) by {
                assert(str_order()(s[i], s[j]));
            }
        }
        lemma_sorted_insert_pos(t, x);
        if lex_lt(x, s.last()) {
            let p = sorted_insert_pos(t, x);
            assert(sorted_insert_pos(s, x) == p);
            assert forall|k: int| 0 <= k < p implies str_le(#[trigger] s[k], x) by {
                assert(s[k] == t[k]);
            }
            assert forall|k: int| p <= k < s.len() implies lex_lt(x, #[trigger] s[k]) by {
                if k < s.len() - 1 {
                    assert(s[k] == t[k]);
                }
            }
        } else {
            assert forall|k: int| 0 <= k < s.len() implies str_le(#[trigger] s[k], x) by {
                if k < s.len() - 1 {
                    assert(str_order()(s[k], s[s.len() - 1]));
                    lemma_lex_lt_total(s[k], s.last());
                    if lex_lt(x, s[k]) && lex_lt(s[k], s.last()) {
                        lemma_lex_lt_transitive(x, s[k], s.last());
                    }
                }
            }
        }
    }
}

/// `a` sorts strictly before `b` (as `a < b` on `str`).
pub fn chars_lt(a: &[char], b: &[char]) -> (r: bool)
    ensures
        r == lex_lt(a@, b@),
{
    let mut i: usize = 0;
    assert(a@.skip(0) =~= a@);
    assert(b@.skip(0) =~= b@);
    while i < a.len() && i < b.len()
        invariant
            i <= a@.len(),
            i <= b@.len(),
            lex_lt(a@, b@) == lex_lt(a@.skip(i as int), b@.skip(i as int)),
        decreases a@.len() - i,
    {
        if a[i] != b[i] {
            proof {
                vstd::utf8::char_u32_cast(a[i as int], a[i as int] as u32);
                vstd::utf8::char_u32_cast(b[i as int], b[i as int] as u32);
            }
            return (a[i] as u32) < (b[i] as u32);
        }
        proof {
            assert(a@.skip(i as int).drop_first() =~= a@.skip(i + 1));
            assert(b@.skip(i as int).drop_first() =~= b@.skip(i + 1));
        }
        i += 1;
    }
    i < b.len()
}

// ---------------------------------------------------------------------------
// Joining
// ---------------------------------------------------------------------------

/// The pieces of `parts` with `sep` between neighbours (`parts.join(sep)`).
pub open spec fn join(parts: Seq<Seq<char>>, sep: Seq<char>) -> Seq<char>
    decreases parts.len(),
{
    if parts.len() == 0 {
        seq![]
    } else if parts.len() == 1 {
        parts[0]
    } else {
        join(parts.drop_last(), sep) + sep + parts.last()
    }
}

/// The views of a slice of string slices.
pub open spec fn str_views(parts: Seq<&str>) -> Seq<Seq<char>> {
    parts.map_values(|p: &str| p@)
}

/// The views of a sequence of strings.
pub open spec fn string_views(parts: Seq<String>) -> Seq<Seq<char>> {
    parts.map_values(|p: String| p@)
}

/// `parts.join(sep)` for string slices.
pub fn join_strs(parts: &[&str], sep: &str) -> (r: String)
    ensures
        r@ == join(str_views(parts@), sep@),
{
    let mut out = String::new();
    let mut i: usize = 0;
    while i < parts.len()
        invariant
            i <= parts@.len(),
            out@ == join(str_views(parts@).take(i as int), sep@),
        decreases parts@.len() - i,
    {
        let ghost before = str_views(parts@).take(i as int);
        if i > 0 {
            out.append(sep);
        }
        out.append(parts[i]);
        proof {
            let after = str_views(parts@).take(i + 1);
            assert(after.drop_last() =~= before);
            assert(after.last() == parts@[i as int]@);
            if i == 0 {
                assert(after.len() == 1);
            }
        }
        i += 1;
    }
    assert(str_views(parts@).take(parts@.len() as int) =~= str_views(parts@));
    out
}

/// `parts.join(sep)` for owned strings.
pub fn join_strings(parts: &[String], sep: &str) -> (r: String)
    ensures
        r@ == join(string_views(parts@), sep@),
{
    let mut out = String::new();
    let mut i: usize = 0;
    while i < parts.len()
        invariant
            i <= parts@.len(),
            out@ == join(string_views(parts@).take(i as int), sep@),
        decreases parts@.len() - i,
    {
        let ghost before = string_views(parts@).take(i as int);
        if i > 0 {
            out.append(sep);
        }
        out.append(parts[i].as_str());
        proof {
            let after = string_views(parts@).take(i + 1);
            assert(after.drop_last() =~= before);
            assert(after.last() == parts@[i as int]@);
            if i == 0 {
                assert(after.len() == 1);
            }
        }
        i += 1;
    }
    assert(string_views(parts@).take(parts@.len() as int) =~= string_views(parts@));
    out
}

// ---------------------------------------------------------------------------
// Character classes
// ---------------------------------------------------------------------------

/// The Unicode `White_Space` property, as `char::is_whitespace` tests it.
pub open spec fn is_whitespace(c: char) -> bool {
    let v = c as u32;
    ||| 0x09 <= v <= 0x0D
    ||| v == 0x20
    ||| v == 0x85
    ||| v == 0xA0
    ||| v == 0x1680
    ||| 0x2000 <= v <= 0x200A
    ||| v == 0x2028
    ||| v == 0x2029
    ||| v == 0x202F
    ||| v == 0x205F
    ||| v == 0x3000
}

pub fn char_is_whitespace(c: char) -> (r: bool)
    ensures
        r == is_whitespace(c),
{
    let v = c as u32;
    (0x09 <= v && v <= 0x0D) || v == 0x20 || v == 0x85 || v == 0xA0 || v == 0x1680 || (0x2000 <= v
        && v <= 0x200A) || v == 0x2028 || v == 0x2029 || v == 0x202F || v == 0x205F || v == 0x3000
}

/// `s` without its leading whitespace.
pub open spec fn trim_start(s: Seq<char>) -> Seq<char>
    decreases s.len(),
{
    if s.len() > 0 && is_whitespace(s[0]) {
        trim_start(s.drop_first())
    } else {
        s
    }
}

/// `s` without its trailing whitespace.
pub open spec fn trim_end(s: Seq<char>) -> Seq<char>
    decreases s.len(),
{
    if s.len() > 0 && is_whitespace(s.last()) {
        trim_end(s.drop_last())
    } else {
        s
    }
}

/// `str::trim`: whitespace removed from both ends.
pub open spec fn trim(s: Seq<char>) -> Seq<char> {
    trim_end(trim_start(s))
}

/// The bounds of `cs[from..to]` with whitespace trimmed from both ends.
pub fn trimmed_bounds(cs: &[char], from: usize, to: usize) -> (r: (usize, usize))
    requires
        from <= to <= cs@.len(),
    ensures
        from <= r.0 <= r.1 <= to,
        cs@.subrange(r.0 as int, r.1 as int) == trim(cs@.subrange(from as int, to as int)),
{
    let mut a: usize = from;
    while a < to && char_is_whitespace(cs[a])
        invariant
            from <= a <= to <= cs@.len(),
            trim_start(cs@.subrange(from as int, to as int)) == trim_start(
                cs@.subrange(a as int, to as int),
            ),
        decreases to - a,
    {
        proof {
            assert(cs@.subrange(a as int, to as int).drop_first() =~= cs@.subrange(
                a + 1,
                to as int,
            ));
        }
        a += 1;
    }
    proof {
        if a < to {
            assert(cs@.subrange(a as int, to as int)[0] == cs@[a as int]);
        }
    }
    let mut b: usize = to;
    while b > a && char_is_whitespace(cs[b - 1])
        invariant
            from <= a <= b <= to <= cs@.len(),
            trim_end(cs@.subrange(a as int, to as int)) == trim_end(
                cs@.subrange(a as int, b as int),
            ),
        decreases b - a,
    {
        proof {
            assert(cs@.subrange(a as int, b as int).drop_last() =~= cs@.subrange(
                a as int,
                b - 1,
            ));
        }
        b -= 1;
    }
    proof {
        if b > a {
            assert(cs@.subrange(a as int, b as int).last() == cs@[b - 1]);
        }
    }
    (a, b)
}

/// ASCII lower-casing of one character (`char::to_ascii_lowercase`).
pub open spec fn ascii_lower(c: char) -> char {
    if 'A' <= c && c <= 'Z' {
        ((c as u32) + 32) as char
    } else {
        c
    }
}

pub fn char_ascii_lower(c: char) -> (r: char)
    ensures
        r == ascii_lower(c),
{
    if 'A' <= c && c <= 'Z' {
        let b: u8 = (c as u8) + 32;
        b as char
    } else {
        c
    }
}

} // verus!
