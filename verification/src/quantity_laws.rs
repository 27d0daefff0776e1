//! How byte counts are rounded.

use vstd::arithmetic::power2::{lemma2_to64, lemma_pow2_unfold, pow2};
use vstd::prelude::*;
use vstd::string::*;
use crate::numbers::decimal;
use crate::quantity::{byte_text, closest_double, double_spacing, nearest, one_decimal};

verus! {

/// `m` steps of `den` come as close to `num` as any number of steps does; halfway
/// between two, `m` is the even one.
pub open spec fn is_nearest(m: int, num: int, den: int) -> bool {
    &&& -den <= 2 * (m * den - num) <= den
    &&& 2 * (m * den - num) == den || 2 * (m * den - num) == -den ==> m % 2 == 0
}

/// Rounding gives the nearest whole number, and halfway the even one.
pub proof fn rounding_gives_the_nearest(num: int, den: int)
    requires
        den > 0,
    ensures
        is_nearest(nearest(num, den), num, den),
{
    let low = num / den;
    let rest = num % den;
    vstd::arithmetic::div_mod::lemma_fundamental_div_mod(num, den);
    vstd::arithmetic::div_mod::lemma_mod_bound(num, den);
    assert(low * den == num - rest) by (nonlinear_arith)
        requires
            num == den * low + rest,
    ;
    assert((low + 1) * den == low * den + den) by (nonlinear_arith);
}

/// Double-precision numbers have 53 significant bits: they lie a power of two apart, so
/// that every number is a multiple of the distance and takes 53 bits counted in it.
pub proof fn doubles_have_53_bits(n: nat)
    ensures
        exists|k: nat| double_spacing(n) == #[trigger] pow2(k),
        double_spacing(n) >= 1,
        n < double_spacing(n) * 0x20_0000_0000_0000,
        double_spacing(n) > 1 ==> double_spacing(n) * 0x10_0000_0000_0000 <= n,
    decreases n,
{
    lemma2_to64();
    if n < 0x20_0000_0000_0000 {
        assert(double_spacing(n) == pow2(0));
    } else {
        doubles_have_53_bits(n / 2);
        let k = choose|k: nat| double_spacing(n / 2) == #[trigger] pow2(k);
        lemma_pow2_unfold(k + 1);
        assert(double_spacing(n) == pow2(k + 1));
    }
}

/// A count is shown as the double-precision number that is nearest to it.
pub proof fn counts_become_the_nearest_double(n: nat)
    ensures
        exists|m: int|
            closest_double(n) == #[trigger] (m * double_spacing(n)) && is_nearest(
                m,
                n as int,
                double_spacing(n) as int,
            ),
{
    doubles_have_53_bits(n);
    let m = nearest(n as int, double_spacing(n) as int);
    rounding_gives_the_nearest(n as int, double_spacing(n) as int);
    assert(closest_double(n) == m * double_spacing(n));
}

/// A text gives `n` in tenths of `unit`, with one decimal and the name of the unit.
pub open spec fn is_tenths_of(t: Seq<char>, n: int, unit: int, name: Seq<char>) -> bool {
    exists|whole: nat, tenth: nat|
        tenth < 10 && t == #[trigger] (decimal(whole) + "."@ + decimal(tenth)) + name
            && is_nearest((10 * whole + tenth) as int, 10 * n, unit)
}

proof fn one_decimal_is_tenths(n: nat, unit: int, name: Seq<char>)
    requires
        unit > 0,
    ensures
        is_tenths_of(one_decimal(n, unit) + name, closest_double(n), unit, name),
{
    let m = closest_double(n);
    let tenths = nearest(m * 10, unit);
    rounding_gives_the_nearest(m * 10, unit);
    doubles_have_53_bits(n);
    let s = double_spacing(n) as int;
    let k = nearest(n as int, s);
    assert(k >= 0) by {
        vstd::arithmetic::div_mod::lemma_div_pos_is_pos(n as int, s);
    }
    assert(m >= 0) by (nonlinear_arith)
        requires
            m == k * s,
            k >= 0,
            s >= 1,
    ;
    assert(tenths >= 0) by {
        vstd::arithmetic::div_mod::lemma_div_pos_is_pos(m * 10, unit);
    }
    reveal_strlit(".");
    assert("."@ =~= seq!['.']);
    let whole = (tenths / 10) as nat;
    let tenth = (tenths % 10) as nat;
    assert(10 * whole + tenth == tenths);
    assert(one_decimal(n, unit) == decimal(whole) + "."@ + decimal(tenth));
}

/// A byte count is shown in the largest of B, KB, MB and GB that it reaches, each 1024
/// of the one before; but for B it is the nearest number of tenths of the unit. A count
/// of up to 53 bits is shown as it is, a larger one as the nearest double-precision
/// number.
pub proof fn byte_counts_are_shown_in_their_unit(n: u64)
    ensures
        n < 1024 ==> byte_text(n) == decimal(n as nat) + "B"@,
        1024 <= n < 1024 * 1024 ==> is_tenths_of(byte_text(n), n as int, 1024, "KB"@),
        1024 * 1024 <= n < 1024 * 1024 * 1024 ==> is_tenths_of(
            byte_text(n),
            n as int,
            1_048_576,
            "MB"@,
        ),
        1024 * 1024 * 1024 <= n ==> is_tenths_of(
            byte_text(n),
            closest_double(n as nat),
            1_073_741_824,
            "GB"@,
        ),
        n < 0x20_0000_0000_0000 ==> closest_double(n as nat) == n,
{
    if n < 0x20_0000_0000_0000 {
        crate::quantity::small_counts_are_exact(n as nat);
    }
    one_decimal_is_tenths(n as nat, 1024, "KB"@);
    one_decimal_is_tenths(n as nat, 1_048_576, "MB"@);
    one_decimal_is_tenths(n as nat, 1_073_741_824, "GB"@);
}

} // verus!
