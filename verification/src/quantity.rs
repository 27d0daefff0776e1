//! Byte counts in the largest unit that fits, with one decimal.

use vstd::prelude::*;
use vstd::string::*;
use crate::numbers::{decimal, decimal_text};

verus! {

/// The whole number closest to `num / den`; of two, the even one.
pub open spec fn nearest(num: int, den: int) -> int {
    let low = num / den;
    let twice_rest = 2 * (num % den);
    if twice_rest < den || (twice_rest == den && low % 2 == 0) {
        low
    } else {
        low + 1
    }
}

/// How far apart double-precision numbers lie at `n`: with 53 significant
/// bits, a power of two, and at least 1 here.
pub open spec fn double_spacing(n: nat) -> nat
    decreases n,
{
    if n < 0x20_0000_0000_0000 {
        1
    } else {
        2 * double_spacing(n / 2)
    }
}

/// The double-precision number closest to `n`; of two, the one whose last
/// significant bit is zero.
pub open spec fn closest_double(n: nat) -> int {
    nearest(n as int, double_spacing(n) as int) * double_spacing(n)
}

/// A count of `unit`s with one decimal: `n`, in double precision, in tenths
/// of the unit.
pub open spec fn one_decimal(n: nat, unit: int) -> Seq<char> {
    let tenths = nearest(closest_double(n) * 10, unit);
    decimal((tenths / 10) as nat) + seq!['.'] + decimal((tenths % 10) as nat)
}

/// A byte count in the largest unit that fits.
pub open spec fn byte_text(n: u64) -> Seq<char> {
    if n < 1024 {
        decimal(n as nat) + "B"@
    } else if n < 1_048_576 {
        one_decimal(n as nat, 1024) + "KB"@
    } else if n < 1_073_741_824 {
        one_decimal(n as nat, 1_048_576) + "MB"@
    } else {
        one_decimal(n as nat, 1_073_741_824) + "GB"@
    }
}

fn spacing_at(n: u64) -> (r: u64)
    ensures
        r == double_spacing(n as nat),
        r >= 1,
        r == 1 || r * 0x10_0000_0000_0000 <= n,
    decreases n,
{
    if n < 0x20_0000_0000_0000 {
        1
    } else {
        2 * spacing_at(n / 2)
    }
}

fn nearest_to(num: u128, den: u128) -> (r: u128)
    requires
        0 < den <= u64::MAX,
        num <= u64::MAX * 20,
    ensures
        r == nearest(num as int, den as int),
        r <= num + 1,
        (r - 1) * den <= num,
{
    let low = num / den;
    let rest = num % den;
    proof {
        assert(low <= num && low * den <= num) by (nonlinear_arith)
            requires
                low == num / den,
                den > 0,
                num >= 0,
        ;
        assert((low - 1) * den <= low * den) by (nonlinear_arith)
            requires
                den > 0,
        ;
    }
    if 2 * rest < den || (2 * rest == den && low % 2 == 0) {
        low
    } else {
        low + 1
    }
}

fn double_of(n: u64) -> (r: u128)
    ensures
        r == closest_double(n as nat),
        r <= 2 * u64::MAX,
{
    let gap = spacing_at(n) as u128;
    let steps = nearest_to(n as u128, gap);
    proof {
        assert(steps * gap <= n + gap) by (nonlinear_arith)
            requires
                (steps - 1) * gap <= n,
        ;
    }
    steps * gap
}

fn with_one_decimal(n: u64, unit: u64) -> (r: String)
    requires
        unit >= 1024,
    ensures
        r@ == one_decimal(n as nat, unit as int),
{
    let value = double_of(n);
    let tenths = nearest_to(value * 10, unit as u128);
    proof {
        if tenths >= 1 {
            assert((tenths - 1) * 1024 <= (tenths - 1) * unit) by (nonlinear_arith)
                requires
                    unit >= 1024,
                    tenths >= 1,
            ;
        }
    }
    assert(tenths / 10 <= u64::MAX);
    let mut r = decimal_text((tenths / 10) as u64);
    r.push('.');
    r.append(decimal_text((tenths % 10) as u64).as_str());
    assert(r@ =~= one_decimal(n as nat, unit as int));
    r
}

/// Writes a byte count in the largest unit that fits.
pub fn format_bytes(bytes: u64) -> (r: String)
    ensures
        r@ == byte_text(bytes),
{
    let mut r;
    if bytes < 1024 {
        r = decimal_text(bytes);
        r.append("B");
    } else if bytes < 1_048_576 {
        r = with_one_decimal(bytes, 1024);
        r.append("KB");
    } else if bytes < 1_073_741_824 {
        r = with_one_decimal(bytes, 1_048_576);
        r.append("MB");
    } else {
        r = with_one_decimal(bytes, 1_073_741_824);
        r.append("GB");
    }
    r
}

/// Counts below two to the 53rd are shown without loss of precision.
pub proof fn small_counts_are_exact(n: nat)
    requires
        n < 0x20_0000_0000_0000,
    ensures
        closest_double(n) == n,
{
    let spacing = double_spacing(n) as int;
    assert(spacing == 1);
    assert((n as int) / spacing == n);
    assert((n as int) % spacing == 0);
}

} // verus!
