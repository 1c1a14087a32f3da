//! Memory figures and their human-readable rendering.
use vstd::prelude::*;

use crate::text::{decimal, decimal_string, digit_char, push_char};

verus! {

pub const KIB: u64 = 1024;

pub const MIB: u64 = 1048576;

pub const GIB: u64 = 1073741824;

/// A snapshot of the system memory counters (`GlobalMemoryStatusEx`).
#[derive(Clone, Copy, Debug, PartialEq, Eq, Structural)]
pub struct MemoryStatus {
    pub memory_load: u32,
    pub total_phys: u64,
    pub avail_phys: u64,
    pub total_page_file: u64,
    pub avail_page_file: u64,
}

/// `n / d` rounded to the nearest integer, ties to the even neighbour
/// (how `{:.N}` rounds an exactly representable value).
pub open spec fn div_round_half_even(n: nat, d: nat) -> nat
    recommends
        d > 0,
{
    let q = n / d;
    let r = n % d;
    if 2 * r < d {
        q
    } else if 2 * r > d {
        q + 1
    } else if q % 2 == 0 {
        q
    } else {
        q + 1
    }
}

/// `value / unit` with two decimals, as `format!("{:.2}", value as f64 / unit as f64)`
/// renders it (`unit` a power of two, so the quotient is exact).
pub open spec fn two_decimals(value: nat, unit: nat) -> Seq<char> {
    let h = div_round_half_even(value * 100, unit);
    decimal(h / 100) + seq!['.', digit_char((h % 100) / 10), digit_char(h % 10)]
}

/// The rendering of a byte count: two decimals in the largest binary unit
/// (KB, MB, GB) that it reaches, or whole bytes below 1 KB.
pub open spec fn format_bytes_spec(bytes: nat) -> Seq<char> {
    if bytes >= GIB {
        two_decimals(bytes, GIB as nat) + seq![' ', 'G', 'B']
    } else if bytes >= MIB {
        two_decimals(bytes, MIB as nat) + seq![' ', 'M', 'B']
    } else if bytes >= KIB {
        two_decimals(bytes, KIB as nat) + seq![' ', 'K', 'B']
    } else {
        decimal(bytes) + seq![' ', 'B']
    }
}

fn small_digit(d: u128) -> (c: char)
    requires
        d < 10,
    ensures
        c == digit_char(d as nat),
{
    let b: u8 = (d as u8) + 48;
    b as char
}

fn two_decimals_string(value: u64, unit: u64) -> (r: String)
    requires
        unit > 0,
    ensures
        r@ == two_decimals(value as nat, unit as nat),
{
    let n: u128 = (value as u128) * 100;
    let d: u128 = unit as u128;
    let q = n / d;
    let rem = n % d;
    let h: u128 = if 2 * rem < d {
        q
    } else if 2 * rem > d {
        q + 1
    } else if q % 2 == 0 {
        q
    } else {
        q + 1
    };
    assert(h == div_round_half_even(value as nat * 100, unit as nat));
    assert(q <= n) by (nonlinear_arith)
        requires
            q == n / d,
            d > 0,
    ;
    let whole: u64 = (h / 100) as u64;
    let mut s = decimal_string(whole);
    push_char(&mut s, '.');
    push_char(&mut s, small_digit((h % 100) / 10));
    push_char(&mut s, small_digit(h % 10));
    assert(s@ =~= two_decimals(value as nat, unit as nat));
    s
}

impl MemoryStatus {
    /// A byte count for display, e.g. `"512.00 MB"` or `"1.86 GB"`.
    pub fn format_bytes(bytes: u64) -> (r: String)
        ensures
            r@ == format_bytes_spec(bytes as nat),
    {
        if bytes >= GIB {
            let mut s = two_decimals_string(bytes, GIB);
            s.append(" GB");
            proof {
                reveal_strlit(" GB");
            }
            assert(s@ =~= format_bytes_spec(bytes as nat));
            s
        } else if bytes >= MIB {
            let mut s = two_decimals_string(bytes, MIB);
            s.append(" MB");
            proof {
                reveal_strlit(" MB");
            }
            assert(s@ =~= format_bytes_spec(bytes as nat));
            s
        } else if bytes >= KIB {
            let mut s = two_decimals_string(bytes, KIB);
            s.append(" KB");
            proof {
                reveal_strlit(" KB");
            }
            assert(s@ =~= format_bytes_spec(bytes as nat));
            s
        } else {
            let mut s = decimal_string(bytes);
            s.append(" B");
            proof {
                reveal_strlit(" B");
            }
            assert(s@ =~= format_bytes_spec(bytes as nat));
            s
        }
    }
}

} // verus!
