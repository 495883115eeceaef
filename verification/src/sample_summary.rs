//! Percentiles and the maximum of utilization samples.
use crate::number::{
    single_greater, single_gt, single_is_nan, single_key, single_nan, single_order, Single,
};
use crate::order::{
    ascending, before, in_order, lemma_in_order, lemma_order_exists, place, Item,
};
use crate::types::UtilizationSample;
use vstd::arithmetic::power2::{
    lemma2_to64, lemma2_to64_rest, lemma_pow2_adds, lemma_pow2_pos, lemma_pow2_strictly_increases,
    lemma_pow2_unfold, pow2,
};
use vstd::prelude::*;

verus! {

/// The distance of neighbouring single-precision numbers at `n`, as far as it
/// exceeds one: the weight of the last of the 24 bits of the significand.
pub open spec fn spacing(n: nat) -> nat
    decreases n,
{
    if n < 0x100_0000 {
        1
    } else {
        2 * spacing(n / 2)
    }
}

/// The integer `n` rounded to single precision: to the nearest multiple of the
/// spacing, and half-way cases to the even one.
pub open spec fn to_single(n: nat) -> nat {
    let unit = spacing(n);
    let quotient = n / unit;
    let rest = n % unit;
    if 2 * rest < unit || (2 * rest == unit && quotient % 2 == 0) {
        quotient * unit
    } else {
        (quotient + 1) * unit
    }
}

/// The number of a pattern that is neither negative nor infinite, in units of
/// two to the minus 149th.
pub open spec fn single_units(bits: u32) -> nat {
    let significand = (bits % 0x80_0000) as nat;
    let exponent = (bits / 0x80_0000) as nat;
    if exponent == 0 {
        significand
    } else {
        (significand + 0x80_0000) * pow2((exponent - 1) as nat)
    }
}

/// A hundredth of a number in single precision, in units half as large. The
/// last bit of the rounded integer only tells that the division left a rest.
/// (Numbers that are too small to matter keep more bits.)
pub open spec fn hundredth(units: nat) -> nat {
    to_single(
        2 * (units / 100) + if units % 100 == 0 {
            0nat
        } else {
            1
        },
    )
}

/// The rank of a percentile among `len` samples, counted from zero, the
/// percentage given in units of two to the minus 149th: `pct / 100 * (len - 1)`,
/// each step in single precision, rounded to the nearest integer with half-way
/// cases upward, and no more than `len - 1`.
pub open spec fn rank_of_units(units: nat, len: nat) -> nat
    recommends
        len > 0,
{
    let steps = to_single((to_single(len) - 1) as nat);
    let product = to_single(hundredth(units) * steps);
    let rank = (product + pow2(149)) / pow2(150);
    if rank > len - 1 {
        (len - 1) as nat
    } else {
        rank
    }
}

/// The rank of a percentile among `len` samples, the percentage given by its
/// bit pattern: the first rank for a negative percentage and for what is no
/// number, the last one for infinity.
pub open spec fn percentile_rank(pct: u32, len: nat) -> nat
    recommends
        len > 0,
{
    if single_is_nan(pct) || pct >= 0x8000_0000 {
        0
    } else if pct == 0x7F80_0000 {
        (len - 1) as nat
    } else {
        rank_of_units(single_units(pct), len)
    }
}

/// Two facts that bound the spacing.
proof fn lemma_spacing(n: nat)
    ensures
        spacing(n) >= 1,
        spacing(n) == 1 || spacing(n) * 0x80_0000 <= n,
        n < 0x100_0000 * spacing(n),
    decreases n,
{
    if n >= 0x100_0000 {
        lemma_spacing(n / 2);
    }
}

/// Rounding at most doubles an integer.
proof fn lemma_to_single_bound(n: nat)
    ensures
        to_single(n) <= 2 * n,
        n >= 1 ==> to_single(n) >= 1,
{
    let unit = spacing(n);
    lemma_spacing(n);
    vstd::arithmetic::div_mod::lemma_fundamental_div_mod(n as int, unit as int);
    let quotient = n / unit;
    let rest = n % unit;
    assert(quotient * unit == unit * quotient && (quotient + 1) * unit == unit * quotient + unit)
        by (nonlinear_arith);
    if unit == 1 {
        assert(rest == 0);
    } else {
        assert(quotient >= 1) by {
            if quotient == 0 {
                assert(unit * quotient == 0) by (nonlinear_arith)
                    requires
                        quotient == 0,
                ;
            }
        }
    }
}

/// Computes [`spacing`].
fn spacing_of(n: u128) -> (unit: u128)
    ensures
        unit == spacing(n as nat),
    decreases n,
{
    proof {
        lemma_spacing(n as nat);
    }
    if n < 0x100_0000 {
        1
    } else {
        proof {
            lemma_spacing((n / 2) as nat);
        }
        2 * spacing_of(n / 2)
    }
}

/// Computes [`to_single`].
fn round_to_single(n: u128) -> (rounded: u128)
    requires
        n < 0x1000_0000_0000_0000_0000_0000_0000_0000,
    ensures
        rounded == to_single(n as nat),
{
    let unit: u128 = spacing_of(n);
    proof {
        lemma_spacing(n as nat);
        lemma_to_single_bound(n as nat);
    }
    let quotient: u128 = n / unit;
    let rest: u128 = n % unit;
    proof {
        vstd::arithmetic::div_mod::lemma_fundamental_div_mod(n as int, unit as int);
        assert(quotient * unit == unit * quotient && (quotient + 1) * unit == unit * quotient
            + unit) by (nonlinear_arith);
    }
    if 2 * rest < unit || (2 * rest == unit && quotient % 2 == 0) {
        quotient * unit
    } else {
        (quotient + 1) * unit
    }
}

/// Doubling an integer with 24 bits or more doubles what it is rounded to.
proof fn lemma_to_single_double(n: nat)
    requires
        n >= 0x80_0000,
    ensures
        to_single(2 * n) == 2 * to_single(n),
{
    let unit = spacing(n);
    lemma_spacing(n);
    assert(spacing(2 * n) == 2 * unit);
    let quotient = n / unit;
    let rest = n % unit;
    vstd::arithmetic::div_mod::lemma_fundamental_div_mod(n as int, unit as int);
    assert(2 * n == quotient * (2 * unit) + 2 * rest) by (nonlinear_arith)
        requires
            n == unit * quotient + rest,
    ;
    vstd::arithmetic::div_mod::lemma_fundamental_div_mod_converse(
        2 * n as int,
        2 * unit as int,
        quotient as int,
        2 * rest as int,
    );
    assert(quotient * (2 * unit) == 2 * (quotient * unit)) by (nonlinear_arith);
    assert((quotient + 1) * (2 * unit) == 2 * ((quotient + 1) * unit)) by (nonlinear_arith);
}

/// Multiplying an integer with 24 bits or more by a power of two multiplies
/// what it is rounded to.
proof fn lemma_to_single_scale(n: nat, k: nat)
    requires
        n >= 0x80_0000,
    ensures
        to_single(n * pow2(k)) == to_single(n) * pow2(k),
    decreases k,
{
    if k == 0 {
        lemma2_to64();
        assert(n * 1 == n);
        assert(to_single(n) * 1 == to_single(n));
    } else {
        let half = n * pow2((k - 1) as nat);
        lemma_to_single_scale(n, (k - 1) as nat);
        lemma_pow2_unfold(k);
        lemma_pow2_pos((k - 1) as nat);
        assert(half >= n) by (nonlinear_arith)
            requires
                half == n * pow2((k - 1) as nat),
                pow2((k - 1) as nat) >= 1,
        ;
        lemma_to_single_double(half);
        assert(n * pow2(k) == 2 * half) by (nonlinear_arith)
            requires
                half == n * pow2((k - 1) as nat),
                pow2(k) == 2 * pow2((k - 1) as nat),
        ;
        assert(to_single(n) * pow2(k) == 2 * (to_single(n) * pow2((k - 1) as nat)))
            by (nonlinear_arith)
            requires
                pow2(k) == 2 * pow2((k - 1) as nat),
        ;
    }
}

/// A last bit far below the spacing acts like one place higher up.
proof fn lemma_odd_bit(m: nat)
    requires
        m >= 0x400_0000,
    ensures
        to_single(2 * m + 1) == 2 * to_single((m + 1 - m % 2) as nat),
{
    let unit = spacing(m);
    lemma_spacing(m);
    assert((2 * m + 1) / 2 == m);
    assert(spacing(2 * m + 1) == 2 * unit);
    assert(m / 2 >= 0x100_0000);
    assert(unit == 2 * spacing(m / 2));
    assert(spacing(m / 2) == 2 * spacing(m / 2 / 2));
    assert(unit % 4 == 0);
    let other = (m + 1 - m % 2) as nat;
    assert(other / 2 == m / 2);
    assert(spacing(other) == unit);
    let quotient = m / unit;
    let rest = m % unit;
    vstd::arithmetic::div_mod::lemma_fundamental_div_mod(m as int, unit as int);
    assert(2 * m + 1 == quotient * (2 * unit) + (2 * rest + 1)) by (nonlinear_arith)
        requires
            m == unit * quotient + rest,
    ;
    vstd::arithmetic::div_mod::lemma_fundamental_div_mod_converse(
        (2 * m + 1) as int,
        2 * unit as int,
        quotient as int,
        (2 * rest + 1) as int,
    );
    let half = unit / 2;
    assert(half % 2 == 0 && unit == 2 * half);
    assert(unit * quotient == 2 * (half * quotient)) by (nonlinear_arith)
        requires
            unit == 2 * half,
    ;
    assert(m % 2 == rest % 2);
    let other_rest = (rest + 1 - rest % 2) as nat;
    assert(other == quotient * unit + other_rest) by (nonlinear_arith)
        requires
            m == unit * quotient + rest,
            other == m + 1 - rest % 2,
            other_rest == rest + 1 - rest % 2,
    ;
    vstd::arithmetic::div_mod::lemma_fundamental_div_mod_converse(
        other as int,
        unit as int,
        quotient as int,
        other_rest as int,
    );
    assert(quotient * (2 * unit) == 2 * (quotient * unit)) by (nonlinear_arith);
    assert((quotient + 1) * (2 * unit) == 2 * ((quotient + 1) * unit)) by (nonlinear_arith);
}

/// What stands far below the spacing acts like a single bit.
proof fn lemma_sticky(a: nat, j: nat, small: nat)
    requires
        a >= 0x400_0000,
        a % 2 == 0,
        small < pow2(j + 1),
    ensures
        to_single(a * pow2(j) + small) == to_single(
            a + if small > 0 {
                1nat
            } else {
                0
            },
        ) * pow2(j),
    decreases j,
{
    let flag: nat = if small > 0 {
        1
    } else {
        0
    };
    if j == 0 {
        lemma2_to64();
        assert(a * 1 == a);
        assert(to_single(a + flag) * 1 == to_single(a + flag));
    } else {
        let k = (j - 1) as nat;
        lemma_pow2_unfold(j);
        lemma_pow2_unfold(j + 1);
        lemma_pow2_pos(k);
        let part = small / 2;
        let m = a * pow2(k) + part;
        assert(a * pow2(j) == 2 * (a * pow2(k))) by (nonlinear_arith)
            requires
                pow2(j) == 2 * pow2(k),
        ;
        assert(a * pow2(k) >= a) by (nonlinear_arith)
            requires
                pow2(k) >= 1,
        ;
        assert((a * pow2(k)) % 2 == 0) by {
            let half = a / 2;
            assert(a * pow2(k) == 2 * (half * pow2(k))) by (nonlinear_arith)
                requires
                    a == 2 * half,
            ;
        }
        assert(m % 2 == part % 2);
        assert(to_single(a + flag) * pow2(j) == 2 * (to_single(a + flag) * pow2(k)))
            by (nonlinear_arith)
            requires
                pow2(j) == 2 * pow2(k),
        ;
        if small % 2 == 0 {
            assert(a * pow2(j) + small == 2 * m);
            lemma_sticky(a, k, part);
            lemma_to_single_double(m);
        } else {
            assert(a * pow2(j) + small == 2 * m + 1);
            let odd = (part + 1 - part % 2) as nat;
            lemma_odd_bit(m);
            assert(pow2(k + 1) % 2 == 0) by {
                lemma_pow2_unfold(k + 1);
            }
            lemma_sticky(a, k, odd);
            assert((m + 1 - m % 2) as nat == a * pow2(k) + odd);
        }
    }
}

/// Rounding takes less than a quarter away from an integer.
proof fn lemma_to_single_lower(n: nat)
    ensures
        4 * to_single(n) >= 3 * n,
        n < 0x100_0000 ==> to_single(n) == n,
{
    let unit = spacing(n);
    lemma_spacing(n);
    vstd::arithmetic::div_mod::lemma_fundamental_div_mod(n as int, unit as int);
    let quotient = n / unit;
    let rest = n % unit;
    assert(quotient * unit == unit * quotient && (quotient + 1) * unit == unit * quotient + unit)
        by (nonlinear_arith);
    if unit == 1 {
        assert(rest == 0);
        assert(quotient == n);
    }
}

/// Computes a power of two.
fn power(k: u32) -> (value: u128)
    requires
        k < 127,
    ensures
        value == pow2(k as nat),
        value > 0,
{
    let mut value: u128 = 1;
    let mut i: u32 = 0;
    proof {
        lemma2_to64();
    }
    while i < k
        invariant
            i <= k < 127,
            value == pow2(i as nat),
        decreases k - i,
    {
        proof {
            lemma_pow2_unfold((i + 1) as nat);
            lemma_pow2_bounded((i + 1) as nat);
        }
        value = value * 2;
        i += 1;
    }
    proof {
        lemma_pow2_pos(k as nat);
    }
    value
}

/// Powers of two below the 128th fit into 128 bits.
proof fn lemma_pow2_bounded(k: nat)
    requires
        k < 128,
    ensures
        pow2(k) <= u128::MAX,
{
    lemma2_to64();
    lemma2_to64_rest();
    lemma_pow2_adds(64, 63);
    if k < 127 {
        lemma_pow2_strictly_increases(k, 127);
    }
    assert(pow2(127) == pow2(64) * pow2(63));
    assert(pow2(64) * pow2(63) <= u128::MAX) by (nonlinear_arith)
        requires
            pow2(64) == 0x1_0000_0000_0000_0000,
            pow2(63) == 0x8000_0000_0000_0000,
    ;
}

/// The rounded number of steps between `len` samples.
proof fn lemma_steps(len: nat)
    requires
        0 < len <= usize::MAX,
    ensures
        to_single(len) >= 1,
        to_single((to_single(len) - 1) as nat) <= 0x4_0000_0000_0000_0000,
        4 * to_single((to_single(len) - 1) as nat) >= len - 1,
{
    lemma_to_single_bound(len);
    lemma_to_single_lower(len);
    lemma_to_single_bound((to_single(len) - 1) as nat);
    lemma_to_single_lower((to_single(len) - 1) as nat);
}

/// A hundredth of a number of middling size, from the leading bits of the
/// division.
proof fn lemma_hundredth(full: nat, x: nat)
    requires
        0x80_0000 <= full < 0x100_0000,
        x >= 20,
    ensures
        hundredth(full * pow2(x)) == to_single(
            2 * (full * 0x10_0000 / 100) + if full * 0x10_0000 % 100 == 0 {
                0nat
            } else {
                1
            },
        ) * pow2((x - 20) as nat),
{
    let j = (x - 20) as nat;
    let q = full * 0x10_0000 / 100;
    let r = full * 0x10_0000 % 100;
    let power = pow2(j);
    lemma_pow2_pos(j);
    lemma_pow2_adds(20, j);
    lemma2_to64();
    let units = full * pow2(x);
    let c = r * power;
    assert(units == 100 * (q * power) + c) by (nonlinear_arith)
        requires
            units == full * pow2(x),
            pow2(x) == 0x10_0000 * power,
            full * 0x10_0000 == 100 * q + r,
            c == r * power,
    ;
    vstd::arithmetic::div_mod::lemma_fundamental_div_mod(c as int, 100);
    vstd::arithmetic::div_mod::lemma_fundamental_div_mod_converse(
        units as int,
        100,
        (q * power + c / 100) as int,
        c as int % 100,
    );
    let small = 2 * (c / 100) + if c % 100 == 0 {
        0nat
    } else {
        1
    };
    assert(c < 100 * power) by (nonlinear_arith)
        requires
            c == r * power,
            r < 100,
            power >= 1,
    ;
    lemma_pow2_unfold(j + 1);
    assert(small < pow2(j + 1));
    assert((r == 0) == (c == 0)) by (nonlinear_arith)
        requires
            c == r * power,
            power >= 1,
    ;
    assert(2 * (q * power) == (2 * q) * power) by (nonlinear_arith);
    lemma_sticky(2 * q, j, small);
}

/// The rank of a percentile of middling size.
proof fn lemma_middle_rank(full: nat, x: nat, part: nat, product: nat, half: nat, len: nat)
    requires
        0x80_0000 <= full < 0x100_0000,
        59 <= x <= 138,
        0 < len <= usize::MAX,
        part == to_single(
            2 * (full * 0x10_0000 / 100) + if full * 0x10_0000 % 100 == 0 {
                0nat
            } else {
                1
            },
        ),
        product == to_single(part * to_single((to_single(len) - 1) as nat)),
        half == pow2((169 - x) as nat),
    ensures
        (to_single(hundredth(full * pow2(x)) * to_single((to_single(len) - 1) as nat)) + pow2(149))
            / pow2(150) == (product + half) / (2 * half),
{
    let j = (x - 20) as nat;
    let power = pow2(j);
    let steps = to_single((to_single(len) - 1) as nat);
    lemma_hundredth(full, x);
    lemma_pow2_pos(j);
    lemma_pow2_pos((169 - x) as nat);
    lemma_to_single_lower(
        2 * (full * 0x10_0000 / 100) + if full * 0x10_0000 % 100 == 0 {
            0nat
        } else {
            1
        },
    );
    assert(part >= 0x80_0000);
    assert((part * power) * steps == (part * steps) * power) by (nonlinear_arith);
    assert(to_single((part * steps) * power) == product * power) by {
        if steps == 0 {
            assert(part * steps == 0) by (nonlinear_arith)
                requires
                    steps == 0,
            ;
            assert((part * steps) * power == 0) by (nonlinear_arith)
                requires
                    part * steps == 0,
            ;
            lemma_to_single_lower(0);
            assert(product * power == 0) by (nonlinear_arith)
                requires
                    product == 0,
            ;
        } else {
            assert(part * steps >= part) by (nonlinear_arith)
                requires
                    steps >= 1,
            ;
            lemma_to_single_scale(part * steps, j);
        }
    }
    lemma_pow2_adds((169 - x) as nat, j);
    lemma_pow2_unfold(150);
    assert(product * power + half * power == power * (product + half)) by (nonlinear_arith);
    assert(2 * (half * power) == power * (2 * half)) by (nonlinear_arith);
    vstd::arithmetic::div_mod::lemma_div_multiples_vanish_quotient(
        power as int,
        (product + half) as int,
        (2 * half) as int,
    );
}

/// A tiny percentage has the first rank.
proof fn lemma_first_rank(units: nat, len: nat)
    requires
        units < pow2(82),
        0 < len <= usize::MAX,
    ensures
        rank_of_units(units, len) == 0,
{
    let steps = to_single((to_single(len) - 1) as nat);
    lemma_steps(len);
    let n = 2 * (units / 100) + if units % 100 == 0 {
        0nat
    } else {
        1
    };
    lemma_to_single_bound(n);
    lemma2_to64();
    lemma_pow2_adds(5, 77);
    lemma_pow2_adds(2, 77);
    lemma_pow2_pos(75);
    lemma_pow2_adds(2, 75);
    assert(n <= pow2(77));
    let ratio = hundredth(units);
    let product = ratio * steps;
    lemma_pow2_adds(64, 2);
    lemma_pow2_adds(77, 66);
    assert(product <= 2 * pow2(143)) by (nonlinear_arith)
        requires
            product == ratio * steps,
            ratio <= 2 * pow2(77),
            steps <= pow2(66),
            pow2(143) == pow2(77) * pow2(66),
    ;
    lemma_to_single_bound(product);
    lemma_pow2_adds(143, 6);
    lemma_pow2_pos(143);
    lemma_pow2_unfold(150);
    let rounded = to_single(product);
    assert(rounded + pow2(149) < pow2(150));
    vstd::arithmetic::div_mod::lemma_basic_div((rounded + pow2(149)) as int, pow2(150) as int);
}

/// A huge percentage has the last rank.
proof fn lemma_last_rank(units: nat, len: nat)
    requires
        units >= pow2(162),
        0 < len <= usize::MAX,
    ensures
        rank_of_units(units, len) == len - 1,
{
    let steps = to_single((to_single(len) - 1) as nat);
    lemma_steps(len);
    let n = 2 * (units / 100) + if units % 100 == 0 {
        0nat
    } else {
        1
    };
    lemma2_to64();
    lemma_pow2_adds(7, 155);
    lemma_pow2_pos(155);
    assert(n >= 2 * pow2(155));
    lemma_to_single_lower(n);
    let ratio = hundredth(units);
    let product = ratio * steps;
    assert(product >= pow2(155) * steps) by (nonlinear_arith)
        requires
            product == ratio * steps,
            ratio >= pow2(155),
    ;
    lemma_to_single_lower(product);
    let rounded = to_single(product);
    lemma_pow2_adds(5, 150);
    let one = pow2(150);
    lemma_pow2_pos(150);
    assert(rounded >= (len - 1) * one) by (nonlinear_arith)
        requires
            4 * rounded >= 3 * product,
            product >= pow2(155) * steps,
            pow2(155) == 32 * one,
            4 * steps >= len - 1,
            one >= 1,
    ;
    assert((rounded + pow2(149)) / one >= len - 1) by {
        vstd::arithmetic::div_mod::lemma_div_is_ordered(
            (len - 1) * one,
            (rounded + pow2(149)) as int,
            one as int,
        );
        vstd::arithmetic::div_mod::lemma_div_multiples_vanish((len - 1) as int, one as int);
        assert((len - 1) * one == one * (len - 1)) by (nonlinear_arith);
    }
}

/// The number of a pattern lies between the powers of two that its exponent
/// says.
proof fn lemma_units_bounds(bits: u32)
    requires
        0x80_0000 <= bits < 0x7F80_0000,
    ensures
        single_units(bits) >= pow2((bits / 0x80_0000 + 22) as nat),
        single_units(bits) < pow2((bits / 0x80_0000 + 23) as nat),
{
    let exponent = (bits / 0x80_0000) as nat;
    let full = (bits % 0x80_0000 + 0x80_0000) as nat;
    let power = pow2((exponent - 1) as nat);
    lemma_pow2_pos((exponent - 1) as nat);
    lemma2_to64();
    lemma_pow2_adds(23, (exponent - 1) as nat);
    lemma_pow2_adds(24, (exponent - 1) as nat);
    assert(full * power >= pow2(23) * power) by (nonlinear_arith)
        requires
            full >= pow2(23),
    ;
    assert(full * power < pow2(24) * power) by (nonlinear_arith)
        requires
            full < pow2(24),
            power >= 1,
    ;
}

/// Computes [`percentile_rank`].
fn rank_of(pct: u32, len: usize) -> (rank: usize)
    requires
        len > 0,
    ensures
        rank == percentile_rank(pct, len as nat),
        rank < len,
{
    if single_nan(pct) || pct >= 0x8000_0000 {
        return 0;
    }
    if pct == 0x7F80_0000 {
        return len - 1;
    }
    let exponent: u32 = pct / 0x80_0000;
    if exponent < 60 {
        proof {
            lemma_pow2_strictly_increases(23, 82);
            lemma2_to64();
            if exponent > 0 {
                lemma_units_bounds(pct);
                if exponent < 59 {
                    lemma_pow2_strictly_increases((exponent + 23) as nat, 82);
                }
            }
            lemma_first_rank(single_units(pct), len as nat);
        }
        return 0;
    }
    if exponent >= 140 {
        proof {
            lemma_units_bounds(pct);
            if exponent > 140 {
                lemma_pow2_strictly_increases(162, (exponent + 22) as nat);
            }
            lemma_last_rank(single_units(pct), len as nat);
        }
        return len - 1;
    }
    let full: u128 = (pct % 0x80_0000 + 0x80_0000) as u128;
    let scaled: u128 = full * 0x10_0000;
    let sticky: u128 = if scaled % 100 == 0 {
        0
    } else {
        1
    };
    let part: u128 = round_to_single(2 * (scaled / 100) + sticky);
    proof {
        lemma_to_single_bound((2 * (scaled / 100) + sticky) as nat);
        lemma_steps(len as nat);
        lemma_to_single_bound(len as nat);
    }
    let length: u128 = round_to_single(len as u128);
    let steps: u128 = round_to_single(length - 1);
    proof {
        assert(part <= 0x100_0000_0000);
        assert(part * steps <= 0x100_0000_0000 * 0x4_0000_0000_0000_0000) by (nonlinear_arith)
            requires
                part <= 0x100_0000_0000,
                steps <= 0x4_0000_0000_0000_0000,
        ;
        lemma_to_single_bound((part * steps) as nat);
    }
    let product: u128 = round_to_single(part * steps);
    let half: u128 = power(170 - exponent);
    proof {
        lemma_middle_rank(
            full as nat,
            (exponent - 1) as nat,
            part as nat,
            product as nat,
            half as nat,
            len as nat,
        );
        lemma2_to64();
        lemma2_to64_rest();
        lemma_pow2_adds(64, 46);
        if exponent > 60 {
            lemma_pow2_strictly_increases((170 - exponent) as nat, 110);
        }
        assert(half <= 0x4000_0000_0000_0000_0000_0000_0000u128) by (nonlinear_arith)
            requires
                half <= pow2(110),
                pow2(110) == pow2(64) * pow2(46),
                pow2(64) == 0x1_0000_0000_0000_0000,
                pow2(46) == 0x4000_0000_0000,
        ;
    }
    let rank: u128 = (product + half) / (2 * half);
    if rank > (len - 1) as u128 {
        len - 1
    } else {
        rank as usize
    }
}

/// The samples as items to order: by value, and samples of equal value by
/// their place.
pub open spec fn ranked(samples: Seq<UtilizationSample>) -> Set<Item> {
    Set::new(
        |item: Item|
            item.1 < samples.len() && item.0 == single_key(samples[item.1 as int].value.bits),
    )
}

/// The sample of the given rank when the samples are put in ascending order of
/// their values, samples of equal value in the order they stand in.
pub open spec fn sample_of_rank(samples: Seq<UtilizationSample>, rank: nat) -> UtilizationSample {
    samples[in_order(ranked(samples))[rank as int].1 as int]
}

/// The percentile of the samples, the percentage given by the bit pattern of a
/// single-precision number; nothing without samples.
pub fn sample_percentile(samples: &[UtilizationSample], pct: u32) -> (value: Option<&Single>)
    ensures
        match value {
            Some(value) => {
                &&& samples@.len() > 0
                &&& *value == sample_of_rank(
                    samples@,
                    percentile_rank(pct, samples@.len()),
                ).value
            },
            None => samples@.len() == 0,
        },
{
    if samples.len() == 0 {
        return None;
    }
    let mut order: Vec<Item> = Vec::new();
    let mut i: usize = 0;
    assert(order@.to_set() =~= ranked(samples@.take(0)));
    while i < samples.len()
        invariant
            i <= samples@.len(),
            order@.len() == i,
            ascending(order@),
            order@.to_set() == ranked(samples@.take(i as int)),
        decreases samples@.len() - i,
    {
        let item: Item = (single_order(samples[i].value.bits), i as u64);
        proof {
            if order@.contains(item) {
                assert(order@.to_set().contains(item));
            }
        }
        place(&mut order, item);
        proof {
            lemma_ranked_next(samples@, i as int);
        }
        i += 1;
    }
    proof {
        assert(samples@.take(i as int) =~= samples@);
        lemma_in_order(order@);
    }
    let rank: usize = rank_of(pct, samples.len());
    let chosen: u64 = order[rank].1;
    proof {
        assert(order@.to_set().contains(order@[rank as int]));
    }
    Some(&samples[chosen as usize].value)
}

/// One more sample adds one item.
proof fn lemma_ranked_next(samples: Seq<UtilizationSample>, i: int)
    requires
        0 <= i < samples.len(),
        samples.len() <= u64::MAX,
    ensures
        ranked(samples.take(i + 1)) == ranked(samples.take(i)).insert(
            (single_key(samples[i].value.bits) as i64, i as u64),
        ),
{
    assert(ranked(samples.take(i + 1)) =~= ranked(samples.take(i)).insert(
        (single_key(samples[i].value.bits) as i64, i as u64),
    ));
}

/// The place of the greatest sample: going through the samples, one that is not
/// less than the greatest so far takes its place.
pub open spec fn max_place(samples: Seq<UtilizationSample>) -> int
    decreases samples.len(),
{
    if samples.len() <= 1 {
        0
    } else {
        let earlier = max_place(samples.drop_last());
        if single_greater(samples[earlier].value.bits, samples.last().value.bits) {
            earlier
        } else {
            samples.len() - 1
        }
    }
}

/// The greatest sample value; nothing without samples.
pub fn sample_max(samples: &[UtilizationSample]) -> (value: Option<&Single>)
    ensures
        match value {
            Some(value) => {
                &&& samples@.len() > 0
                &&& *value == samples@[max_place(samples@)].value
            },
            None => samples@.len() == 0,
        },
{
    if samples.len() == 0 {
        return None;
    }
    let mut best: usize = 0;
    let mut i: usize = 1;
    while i < samples.len()
        invariant
            1 <= i <= samples@.len(),
            best < i,
            best == max_place(samples@.take(i as int)),
        decreases samples@.len() - i,
    {
        assert(samples@.take(i + 1).drop_last() =~= samples@.take(i as int));
        if !single_gt(samples[best].value.bits, samples[i].value.bits) {
            best = i;
        }
        i += 1;
    }
    assert(samples@.take(i as int) =~= samples@);
    Some(&samples[best].value)
}

/// The samples as a list of items.
spec fn listed(samples: Seq<UtilizationSample>) -> Seq<Item> {
    Seq::new(
        samples.len(),
        |i: int| (single_key(samples[i].value.bits) as i64, i as u64),
    )
}

/// The ordering of the samples exists and holds each of them once.
proof fn lemma_samples_ordered(samples: Seq<UtilizationSample>)
    requires
        samples.len() <= u64::MAX,
    ensures
        ascending(in_order(ranked(samples))),
        in_order(ranked(samples)).to_set() == ranked(samples),
        in_order(ranked(samples)).len() == samples.len(),
{
    let items = listed(samples);
    assert(items.no_duplicates());
    assert forall|x: Item| items.to_set().contains(x) == ranked(samples).contains(x) by {
        if ranked(samples).contains(x) {
            assert(items[x.1 as int] == x);
        }
    }
    assert(items.to_set() =~= ranked(samples));
    lemma_order_exists(items);
}

/// The sample of a rank is one of the samples.
pub proof fn law_percentile_is_a_sample(samples: Seq<UtilizationSample>, rank: nat)
    requires
        rank < samples.len() <= u64::MAX,
    ensures
        samples.contains(sample_of_rank(samples, rank)),
{
    lemma_samples_ordered(samples);
    let order = in_order(ranked(samples));
    assert(order.to_set().contains(order[rank as int]));
    assert(samples[order[rank as int].1 as int] == sample_of_rank(samples, rank));
}

/// A sample of a higher rank is not less.
pub proof fn law_ranks_ascend(samples: Seq<UtilizationSample>, low: nat, high: nat)
    requires
        low <= high < samples.len() <= u64::MAX,
    ensures
        single_key(sample_of_rank(samples, low).value.bits) <= single_key(
            sample_of_rank(samples, high).value.bits,
        ),
{
    lemma_samples_ordered(samples);
    let order = in_order(ranked(samples));
    assert(order.to_set().contains(order[low as int]));
    assert(order.to_set().contains(order[high as int]));
    if low < high {
        assert(before(order[low as int], order[high as int]));
    }
}

/// Rounding to single precision keeps the order.
proof fn lemma_to_single_monotone(n: nat, m: nat)
    requires
        n <= m,
    ensures
        to_single(n) <= to_single(m),
{
    let a = spacing(n);
    let b = spacing(m);
    lemma_spacing(n);
    lemma_spacing(m);
    lemma_spacing_monotone(n, m);
    vstd::arithmetic::div_mod::lemma_fundamental_div_mod(n as int, a as int);
    vstd::arithmetic::div_mod::lemma_fundamental_div_mod(m as int, b as int);
    let p = n / a;
    let q = m / b;
    assert(a * p == p * a && (p + 1) * a == p * a + a) by (nonlinear_arith);
    assert(b * q == q * b && (q + 1) * b == q * b + b) by (nonlinear_arith);
    if a == b {
        assert(p <= q) by {
            vstd::arithmetic::div_mod::lemma_div_is_ordered(n as int, m as int, a as int);
        }
        assert(p * a <= q * a) by (nonlinear_arith)
            requires
                p <= q,
        ;
        if p < q {
            assert((p + 1) * a <= q * a) by (nonlinear_arith)
                requires
                    p + 1 <= q,
            ;
        }
    } else {
        assert(p < 0x100_0000) by (nonlinear_arith)
            requires
                n < 0x100_0000 * a,
                p * a <= n,
        ;
        assert((p + 1) * a <= 0x100_0000 * a) by (nonlinear_arith)
            requires
                p + 1 <= 0x100_0000,
        ;
        assert(q >= 0x80_0000) by (nonlinear_arith)
            requires
                b * 0x80_0000 <= m,
                m < q * b + b,
                b >= 1,
        ;
        assert(q * b >= 0x80_0000 * b) by (nonlinear_arith)
            requires
                q >= 0x80_0000,
        ;
    }
}

/// The spacing grows with the number, and by doubling.
proof fn lemma_spacing_monotone(n: nat, m: nat)
    requires
        n <= m,
    ensures
        spacing(n) == spacing(m) || 2 * spacing(n) <= spacing(m),
    decreases m,
{
    lemma_spacing(m);
    if n >= 0x100_0000 {
        lemma_spacing_monotone(n / 2, m / 2);
    } else if m >= 0x100_0000 {
        lemma_spacing(m / 2);
    }
}

/// A greater pattern has no lesser number.
proof fn lemma_units_monotone(low: u32, high: u32)
    requires
        low <= high < 0x7F80_0000,
    ensures
        single_units(low) <= single_units(high),
{
    let a = low / 0x80_0000;
    let b = high / 0x80_0000;
    if a == b {
        if a > 0 {
            let power = pow2((a - 1) as nat);
            assert((low % 0x80_0000 + 0x80_0000) * power <= (high % 0x80_0000 + 0x80_0000) * power)
                by (nonlinear_arith)
                requires
                    low % 0x80_0000 <= high % 0x80_0000,
            ;
        }
    } else {
        lemma_units_bounds(high);
        lemma2_to64();
        if a > 0 {
            lemma_units_bounds(low);
            if a + 23 < b + 22 {
                lemma_pow2_strictly_increases((a + 23) as nat, (b + 22) as nat);
            }
        } else if b > 1 {
            lemma_pow2_strictly_increases(23, (b + 22) as nat);
        }
    }
}

/// A higher percentile has no lower rank.
proof fn lemma_rank_monotone(low: u32, high: u32, len: nat)
    requires
        !single_is_nan(low),
        !single_is_nan(high),
        single_key(low) <= single_key(high),
        len > 0,
    ensures
        percentile_rank(low, len) <= percentile_rank(high, len),
        percentile_rank(high, len) < len,
{
    if low < 0x8000_0000 && high < 0x7F80_0000 {
        let small = single_units(low);
        let large = single_units(high);
        lemma_units_monotone(low, high);
        let a = 2 * (small / 100) + if small % 100 == 0 {
            0nat
        } else {
            1
        };
        let b = 2 * (large / 100) + if large % 100 == 0 {
            0nat
        } else {
            1
        };
        assert(a <= b);
        lemma_to_single_monotone(a, b);
        let steps = to_single((to_single(len) - 1) as nat);
        let lower = hundredth(small) * steps;
        let upper = hundredth(large) * steps;
        assert(lower <= upper) by (nonlinear_arith)
            requires
                lower == hundredth(small) * steps,
                upper == hundredth(large) * steps,
                hundredth(small) <= hundredth(large),
        ;
        lemma_to_single_monotone(lower, upper);
        lemma_pow2_pos(150);
        vstd::arithmetic::div_mod::lemma_div_is_ordered(
            (to_single(lower) + pow2(149)) as int,
            (to_single(upper) + pow2(149)) as int,
            pow2(150) as int,
        );
    } else if low < 0x8000_0000 && high >= 0x8000_0000 {
        let steps = to_single((to_single(len) - 1) as nat);
        lemma_to_single_lower(0);
        assert(hundredth(0) * steps == 0) by (nonlinear_arith)
            requires
                hundredth(0) == 0,
        ;
        lemma_pow2_unfold(150);
        lemma_pow2_pos(149);
        vstd::arithmetic::div_mod::lemma_basic_div(pow2(149) as int, pow2(150) as int);
    }
}

/// The greatest sample is one of the samples, and where every value is a
/// number none is greater.
pub proof fn law_max_is_greatest(samples: Seq<UtilizationSample>)
    requires
        samples.len() > 0,
        forall|i: int| 0 <= i < samples.len() ==> !single_is_nan(#[trigger] samples[i].value.bits),
    ensures
        0 <= max_place(samples) < samples.len(),
        forall|i: int|
            0 <= i < samples.len() ==> single_key(#[trigger] samples[i].value.bits) <= single_key(
                samples[max_place(samples)].value.bits,
            ),
    decreases samples.len(),
{
    if samples.len() > 1 {
        let earlier = samples.drop_last();
        assert forall|i: int| 0 <= i < earlier.len() implies !single_is_nan(
            #[trigger] earlier[i].value.bits,
        ) by {
            assert(earlier[i] == samples[i]);
        }
        law_max_is_greatest(earlier);
        assert forall|i: int| 0 <= i < samples.len() implies single_key(
            #[trigger] samples[i].value.bits,
        ) <= single_key(samples[max_place(samples)].value.bits) by {
            if i < earlier.len() {
                assert(earlier[i] == samples[i]);
            }
            assert(earlier[max_place(earlier)] == samples[max_place(earlier)]);
        }
    }
}

/// Where every value is a number, a lower percentile is not above a higher
/// one, and no percentile is above the maximum.
pub proof fn law_summaries_ascend(samples: Seq<UtilizationSample>, low: u32, high: u32)
    requires
        0 < samples.len() <= u64::MAX,
        !single_is_nan(low),
        !single_is_nan(high),
        single_key(low) <= single_key(high),
        forall|i: int| 0 <= i < samples.len() ==> !single_is_nan(#[trigger] samples[i].value.bits),
    ensures
        single_key(
            sample_of_rank(samples, percentile_rank(low, samples.len())).value.bits,
        ) <= single_key(
            sample_of_rank(samples, percentile_rank(high, samples.len())).value.bits,
        ),
        single_key(
            sample_of_rank(samples, percentile_rank(high, samples.len())).value.bits,
        ) <= single_key(samples[max_place(samples)].value.bits),
{
    let lower = percentile_rank(low, samples.len());
    let upper = percentile_rank(high, samples.len());
    lemma_rank_monotone(low, high, samples.len());
    law_ranks_ascend(samples, lower, upper);
    law_percentile_is_a_sample(samples, upper);
    law_max_is_greatest(samples);
    let i = choose|i: int| 0 <= i < samples.len() && samples[i] == sample_of_rank(samples, upper);
    assert(single_key(samples[i].value.bits) <= single_key(samples[max_place(samples)].value.bits));
}

/// Bit pattern of the single-precision number 100.
pub const HUNDRED: u32 = 0x42C8_0000;

/// An integer of 24 bits times a power of two is a single-precision number.
proof fn lemma_exact(m: nat, k: nat)
    requires
        m < 0x100_0000,
    ensures
        to_single(m * pow2(k)) == m * pow2(k),
    decreases k,
{
    let n = m * pow2(k);
    if n < 0x100_0000 {
        lemma_to_single_lower(n);
    } else if k == 0 {
        lemma2_to64();
        assert(m * 1 == m);
    } else {
        let half = m * pow2((k - 1) as nat);
        lemma_exact(m, (k - 1) as nat);
        lemma_pow2_unfold(k);
        assert(n == 2 * half) by (nonlinear_arith)
            requires
                n == m * pow2(k),
                half == m * pow2((k - 1) as nat),
                pow2(k) == 2 * pow2((k - 1) as nat),
        ;
        lemma_to_single_double(half);
    }
}

/// The 100th percentile is of the last rank, as long as the number of samples is
/// a single-precision number.
proof fn lemma_hundred(len: nat)
    requires
        0 < len <= 0x100_0000,
    ensures
        percentile_rank(HUNDRED, len) == len - 1,
{
    lemma2_to64();
    let steps = (len - 1) as nat;
    assert(to_single(len) == len) by {
        if len < 0x100_0000 {
            lemma_to_single_lower(len);
        } else {
            lemma_exact(0x80_0000, 1);
        }
    }
    lemma_to_single_lower(steps);
    let units = single_units(HUNDRED);
    assert(HUNDRED % 0x80_0000 == 0x48_0000 && HUNDRED / 0x80_0000 == 133);
    assert(units == 0xC8_0000 * pow2(132));
    lemma_pow2_adds(17, 132);
    assert(units == 100 * pow2(149)) by (nonlinear_arith)
        requires
            units == 0xC8_0000 * pow2(132),
            pow2(17) == 0x2_0000,
            pow2(17) * pow2(132) == pow2(149),
    ;
    lemma_pow2_unfold(150);
    assert(units / 100 == pow2(149) && units % 100 == 0);
    assert(hundredth(units) == pow2(150)) by {
        lemma_exact(1, 150);
        assert(1 * pow2(150) == pow2(150));
    }
    assert(pow2(150) * steps == steps * pow2(150)) by (nonlinear_arith);
    lemma_exact(steps, 150);
    lemma_pow2_pos(149);
    vstd::arithmetic::div_mod::lemma_fundamental_div_mod_converse(
        (steps * pow2(150) + pow2(149)) as int,
        pow2(150) as int,
        steps as int,
        pow2(149) as int,
    );
}

/// The rank that a sample has.
proof fn lemma_rank_of_sample(samples: Seq<UtilizationSample>, i: int) -> (rank: nat)
    requires
        0 <= i < samples.len() <= u64::MAX,
    ensures
        rank < samples.len(),
        in_order(ranked(samples))[rank as int] == (
            single_key(samples[i].value.bits) as i64,
            i as u64,
        ),
        sample_of_rank(samples, rank) == samples[i],
{
    lemma_samples_ordered(samples);
    let order = in_order(ranked(samples));
    let item: Item = (single_key(samples[i].value.bits) as i64, i as u64);
    assert(ranked(samples).contains(item));
    assert(order.to_set().contains(item));
    let rank = choose|rank: int| 0 <= rank < order.len() && order[rank] == item;
    rank as nat
}

/// Every percentile up to zero is the least of the samples.
pub proof fn law_lowest_percentile_is_the_minimum(samples: Seq<UtilizationSample>, pct: u32)
    requires
        0 < samples.len() <= u64::MAX,
        !single_is_nan(pct),
        single_key(pct) <= 0,
    ensures
        samples.contains(sample_of_rank(samples, percentile_rank(pct, samples.len()))),
        forall|i: int|
            0 <= i < samples.len() ==> single_key(
                sample_of_rank(samples, percentile_rank(pct, samples.len())).value.bits,
            ) <= single_key(#[trigger] samples[i].value.bits),
{
    let len = samples.len();
    lemma_rank_monotone(pct, 0x8000_0000, len);
    law_percentile_is_a_sample(samples, 0);
    assert forall|i: int| 0 <= i < samples.len() implies single_key(
        sample_of_rank(samples, 0).value.bits,
    ) <= single_key(#[trigger] samples[i].value.bits) by {
        let rank = lemma_rank_of_sample(samples, i);
        law_ranks_ascend(samples, 0, rank);
    }
}

/// The place of the maximum is the last one with the greatest value.
proof fn lemma_last_maximum(samples: Seq<UtilizationSample>)
    requires
        samples.len() > 0,
        forall|i: int| 0 <= i < samples.len() ==> !single_is_nan(#[trigger] samples[i].value.bits),
    ensures
        0 <= max_place(samples) < samples.len(),
        forall|i: int|
            max_place(samples) < i < samples.len() ==> single_key(#[trigger] samples[i].value.bits)
                < single_key(samples[max_place(samples)].value.bits),
    decreases samples.len(),
{
    if samples.len() > 1 {
        let earlier = samples.drop_last();
        assert forall|i: int| 0 <= i < earlier.len() implies !single_is_nan(
            #[trigger] earlier[i].value.bits,
        ) by {
            assert(earlier[i] == samples[i]);
        }
        lemma_last_maximum(earlier);
        assert forall|i: int| max_place(samples) < i < samples.len() implies single_key(
            #[trigger] samples[i].value.bits,
        ) < single_key(samples[max_place(samples)].value.bits) by {
            if i < earlier.len() {
                assert(earlier[i] == samples[i]);
            }
            assert(earlier[max_place(earlier)] == samples[max_place(earlier)]);
        }
    }
}

/// Where every value is a number, every percentile from 100 on is the maximum.
/// Beyond two to the 24th the number of samples may be rounded down, and the
/// 100th percentile can miss the last rank.
pub proof fn law_highest_percentile_is_the_maximum(samples: Seq<UtilizationSample>, pct: u32)
    requires
        0 < samples.len() <= 0x100_0000,
        !single_is_nan(pct),
        single_key(pct) >= single_key(HUNDRED),
        forall|i: int| 0 <= i < samples.len() ==> !single_is_nan(#[trigger] samples[i].value.bits),
    ensures
        sample_of_rank(samples, percentile_rank(pct, samples.len())) == samples[max_place(samples)],
{
    let len = samples.len();
    let last = (len - 1) as nat;
    lemma_hundred(len);
    lemma_rank_monotone(HUNDRED, pct, len);
    assert(percentile_rank(pct, len) == last);
    law_max_is_greatest(samples);
    lemma_last_maximum(samples);
    lemma_samples_ordered(samples);
    let order = in_order(ranked(samples));
    let place = max_place(samples);
    let rank = lemma_rank_of_sample(samples, place);
    assert(order.to_set().contains(order[last as int]));
    let other = order[last as int].1 as int;
    assert(order[last as int].0 == single_key(samples[other].value.bits));
    assert(single_key(samples[other].value.bits) <= single_key(samples[place].value.bits));
    if rank < last {
        assert(before(order[rank as int], order[last as int]));
        assert(other > place);
        assert(false);
    }
}

/// The values of the samples, by the integers that order them.
pub open spec fn keys_of(samples: Seq<UtilizationSample>) -> Seq<int> {
    samples.map_values(|sample: UtilizationSample| single_key(sample.value.bits))
}

/// Lists with the same items, however often and in whatever order, have the same
/// keys.
proof fn lemma_same_keys(a: Seq<Item>, b: Seq<Item>)
    requires
        a.to_multiset() == b.to_multiset(),
    ensures
        a.map_values(|item: Item| item.0 as int).to_multiset() == b.map_values(
            |item: Item| item.0 as int,
        ).to_multiset(),
    decreases a.len(),
{
    broadcast use vstd::seq_lib::group_to_multiset_ensures;

    let key = |item: Item| item.0 as int;
    assert(a.len() == a.to_multiset().len() && b.len() == b.to_multiset().len());
    if a.len() == 0 {
        assert(a =~= b);
    } else {
        let last = a.last();
        assert(a.contains(last));
        assert(b.to_multiset().count(last) > 0);
        assert(b.contains(last));
        let i = choose|i: int| 0 <= i < b.len() && b[i] == last;
        let rest = b.remove(i);
        assert(a =~= a.drop_last().push(last));
        assert(a.drop_last().to_multiset() =~= rest.to_multiset());
        lemma_same_keys(a.drop_last(), rest);
        assert(a.map_values(key) =~= a.drop_last().map_values(key).push(key(last)));
        assert(rest.map_values(key) =~= b.map_values(key).remove(i));
        assert(b.map_values(key)[i] == key(last));
        assert(a.map_values(key).to_multiset() =~= b.map_values(key).to_multiset());
    }
}

/// The keys in the order of the samples' ranks are the keys of the samples.
proof fn lemma_ranked_keys(samples: Seq<UtilizationSample>)
    requires
        samples.len() <= u64::MAX,
    ensures
        in_order(ranked(samples)).map_values(|item: Item| item.0 as int).to_multiset() == keys_of(
            samples,
        ).to_multiset(),
{
    broadcast use vstd::seq_lib::group_to_multiset_ensures;

    let order = in_order(ranked(samples));
    let items = listed(samples);
    lemma_samples_ordered(samples);
    assert(items.no_duplicates());
    assert(order.no_duplicates());
    items.lemma_multiset_has_no_duplicates();
    order.lemma_multiset_has_no_duplicates();
    assert forall|x: Item| order.to_multiset().count(x) == items.to_multiset().count(x) by {
        assert(order.contains(x) == order.to_set().contains(x));
        if ranked(samples).contains(x) {
            assert(items[x.1 as int] == x);
        }
        assert(items.contains(x) == ranked(samples).contains(x));
    }
    assert(order.to_multiset() =~= items.to_multiset());
    lemma_same_keys(order, items);
    assert(items.map_values(|item: Item| item.0 as int) =~= keys_of(samples));
}

/// A percentile depends on the values alone: neither the order of the samples
/// nor their time stamps matter. Only where the value is zero, which has two
/// patterns, the order can tell which of the two it is.
pub proof fn law_percentile_depends_on_the_values(
    samples: Seq<UtilizationSample>,
    others: Seq<UtilizationSample>,
    pct: u32,
)
    requires
        0 < samples.len() <= u64::MAX,
        keys_of(samples).to_multiset() == keys_of(others).to_multiset(),
    ensures
        ({
            let one = sample_of_rank(samples, percentile_rank(pct, samples.len())).value.bits;
            let other = sample_of_rank(others, percentile_rank(pct, others.len())).value.bits;
            single_key(one) == single_key(other) && (single_key(one) != 0 ==> one == other)
        }),
{
    broadcast use vstd::seq_lib::group_to_multiset_ensures;

    assert(keys_of(samples).len() == keys_of(samples).to_multiset().len());
    assert(keys_of(others).len() == keys_of(others).to_multiset().len());
    let key = |item: Item| item.0 as int;
    let leq = |a: int, b: int| a <= b;
    let a = in_order(ranked(samples));
    let b = in_order(ranked(others));
    lemma_samples_ordered(samples);
    lemma_samples_ordered(others);
    lemma_ranked_keys(samples);
    lemma_ranked_keys(others);
    let x = a.map_values(key);
    let y = b.map_values(key);
    assert forall|i: int, j: int| 0 <= i < j < x.len() implies #[trigger] leq(x[i], x[j]) by {
        assert(before(a[i], a[j]));
    }
    assert forall|i: int, j: int| 0 <= i < j < y.len() implies #[trigger] leq(y[i], y[j]) by {
        assert(before(b[i], b[j]));
    }
    vstd::seq_lib::lemma_sorted_unique(x, y, leq);
    let rank = percentile_rank(pct, samples.len());
    lemma_rank_below(pct, samples.len());
    assert(a.to_set().contains(a[rank as int]));
    assert(b.to_set().contains(b[rank as int]));
    assert(x[rank as int] == y[rank as int]);
}

/// A rank is one of the samples.
proof fn lemma_rank_below(pct: u32, len: nat)
    requires
        len > 0,
    ensures
        percentile_rank(pct, len) < len,
{
}

/// Counting by a rule gives the same number for lists with the same elements, in
/// whatever order.
proof fn lemma_same_count(a: Seq<int>, b: Seq<int>, rule: spec_fn(int) -> bool)
    requires
        a.to_multiset() == b.to_multiset(),
    ensures
        a.filter(rule).len() == b.filter(rule).len(),
    decreases a.len(),
{
    broadcast use vstd::seq_lib::group_to_multiset_ensures;

    assert(a.len() == a.to_multiset().len() && b.len() == b.to_multiset().len());
    reveal(Seq::filter);
    if a.len() > 0 {
        let last = a.last();
        assert(a.contains(last));
        assert(b.to_multiset().count(last) > 0);
        assert(b.contains(last));
        let i = choose|i: int| 0 <= i < b.len() && b[i] == last;
        let rest = b.remove(i);
        assert(a =~= a.drop_last().push(last));
        assert(a.drop_last().to_multiset() =~= rest.to_multiset());
        lemma_same_count(a.drop_last(), rest, rule);
        let front = b.take(i);
        let back = b.skip(i + 1);
        assert(b =~= front.push(last) + back);
        assert(rest =~= front + back);
        Seq::filter_distributes_over_add(front.push(last), back, rule);
        Seq::filter_distributes_over_add(front, back, rule);
        assert(front.push(last).drop_last() =~= front);
    }
}

/// Counting samples by their keys is counting their keys.
proof fn lemma_keys_counted(samples: Seq<UtilizationSample>, rule: spec_fn(int) -> bool)
    ensures
        samples.filter(|s: UtilizationSample| rule(single_key(s.value.bits))).len() == keys_of(
            samples,
        ).filter(rule).len(),
    decreases samples.len(),
{
    reveal(Seq::filter);
    if samples.len() > 0 {
        lemma_keys_counted(samples.drop_last(), rule);
        assert(keys_of(samples).drop_last() =~= keys_of(samples.drop_last()));
    }
}

/// What the sample of a rank is, by counting: no more samples than the rank are
/// less than it, and more samples than the rank are not greater.
pub proof fn law_rank_is_a_count(samples: Seq<UtilizationSample>, rank: nat)
    requires
        rank < samples.len() <= u64::MAX,
    ensures
        samples.contains(sample_of_rank(samples, rank)),
        samples.filter(
            |s: UtilizationSample|
                single_key(s.value.bits) < single_key(sample_of_rank(samples, rank).value.bits),
        ).len() <= rank,
        samples.filter(
            |s: UtilizationSample|
                single_key(s.value.bits) <= single_key(sample_of_rank(samples, rank).value.bits),
        ).len() > rank,
{
    law_percentile_is_a_sample(samples, rank);
    lemma_samples_ordered(samples);
    lemma_ranked_keys(samples);
    let order = in_order(ranked(samples));
    let key = |item: Item| item.0 as int;
    let keys = order.map_values(key);
    assert(order.to_set().contains(order[rank as int]));
    let value = single_key(sample_of_rank(samples, rank).value.bits);
    assert(keys[rank as int] == value);
    let less = |k: int| k < value;
    let most = |k: int| k <= value;
    lemma_same_count(keys, keys_of(samples), less);
    lemma_same_count(keys, keys_of(samples), most);
    lemma_keys_counted(samples, less);
    lemma_keys_counted(samples, most);
    assert((|s: UtilizationSample| less(single_key(s.value.bits))) =~= (
    |s: UtilizationSample| single_key(s.value.bits) < value));
    assert((|s: UtilizationSample| most(single_key(s.value.bits))) =~= (
    |s: UtilizationSample| single_key(s.value.bits) <= value));
    assert forall|i: int, j: int| 0 <= i <= j < keys.len() implies keys[i] <= keys[j] by {
        if i < j {
            assert(before(order[i], order[j]));
        }
    }
    let front = keys.take(rank as int);
    let back = keys.skip(rank as int);
    assert(keys =~= front + back);
    Seq::filter_distributes_over_add(front, back, less);
    front.lemma_filter_len(less);
    assert forall|i: int| 0 <= i < back.len() implies !less(#[trigger] back[i]) by {
        assert(keys[rank as int] <= keys[rank + i]);
    }
    lemma_none_counted(back, less);
    let low = keys.take(rank as int + 1);
    let high = keys.skip(rank as int + 1);
    assert(keys =~= low + high);
    Seq::filter_distributes_over_add(low, high, most);
    assert forall|i: int| 0 <= i < low.len() implies most(#[trigger] low[i]) by {
        assert(keys[i] <= keys[rank as int]);
    }
    lemma_all_counted(low, most);
}

/// A rule that no element meets counts none.
proof fn lemma_none_counted(list: Seq<int>, rule: spec_fn(int) -> bool)
    requires
        forall|i: int| 0 <= i < list.len() ==> !rule(#[trigger] list[i]),
    ensures
        list.filter(rule).len() == 0,
    decreases list.len(),
{
    reveal(Seq::filter);
    if list.len() > 0 {
        assert(!rule(list[list.len() - 1]));
        assert forall|i: int| 0 <= i < list.drop_last().len() implies !rule(
            #[trigger] list.drop_last()[i],
        ) by {
            assert(!rule(list[i]));
        }
        lemma_none_counted(list.drop_last(), rule);
    }
}

/// A rule that every element meets counts them all.
proof fn lemma_all_counted(list: Seq<int>, rule: spec_fn(int) -> bool)
    requires
        forall|i: int| 0 <= i < list.len() ==> rule(#[trigger] list[i]),
    ensures
        list.filter(rule).len() == list.len(),
    decreases list.len(),
{
    reveal(Seq::filter);
    if list.len() > 0 {
        assert(rule(list[list.len() - 1]));
        assert forall|i: int| 0 <= i < list.drop_last().len() implies rule(
            #[trigger] list.drop_last()[i],
        ) by {
            assert(rule(list[i]));
        }
        lemma_all_counted(list.drop_last(), rule);
    }
}

/// The rank of the 50th percentile is half of the greatest rank, and half-way
/// cases are rounded up.
pub proof fn law_rank_of_fifty(len: nat)
    requires
        0 < len <= 0x100_0000,
    ensures
        percentile_rank(0x4248_0000, len) == (50 * (len - 1) + 50) / 100,
{
    lemma2_to64();
    let steps = (len - 1) as nat;
    lemma_length(len);
    let units = single_units(0x4248_0000);
    assert(0x4248_0000u32 % 0x80_0000 == 0x48_0000 && 0x4248_0000u32 / 0x80_0000 == 132);
    assert(units == 0xC8_0000 * pow2(131));
    lemma_pow2_adds(17, 131);
    lemma_pow2_unfold(149);
    assert(units == 100 * pow2(148)) by (nonlinear_arith)
        requires
            units == 0xC8_0000 * pow2(131),
            pow2(17) == 0x2_0000,
            pow2(17) * pow2(131) == pow2(148),
    ;
    assert(units / 100 == pow2(148) && units % 100 == 0);
    assert(hundredth(units) == pow2(149)) by {
        lemma_exact(1, 149);
        assert(1 * pow2(149) == pow2(149));
    }
    assert(pow2(149) * steps == steps * pow2(149)) by (nonlinear_arith);
    lemma_exact(steps, 149);
    lemma_pow2_unfold(150);
    lemma_pow2_pos(149);
    assert(steps * pow2(149) + pow2(149) == pow2(149) * (steps + 1)) by (nonlinear_arith);
    assert(pow2(150) == pow2(149) * 2);
    vstd::arithmetic::div_mod::lemma_div_multiples_vanish_quotient(
        pow2(149) as int,
        (steps + 1) as int,
        2,
    );
}

/// A length up to two to the 24th is a single-precision number.
proof fn lemma_length(len: nat)
    requires
        0 < len <= 0x100_0000,
    ensures
        to_single(len) == len,
        to_single((len - 1) as nat) == len - 1,
{
    lemma2_to64();
    if len < 0x100_0000 {
        lemma_to_single_lower(len);
    } else {
        lemma_exact(0x80_0000, 1);
    }
    lemma_to_single_lower((len - 1) as nat);
}

/// Rounding moves a number by at most half of the spacing, which is no more than
/// its 2^23rd part.
proof fn lemma_to_single_error(n: nat)
    ensures
        2 * to_single(n) <= 2 * n + spacing(n),
        2 * n <= 2 * to_single(n) + spacing(n),
        n >= 0x100_0000 ==> spacing(n) * 0x80_0000 <= n,
        n < 0x100_0000 ==> to_single(n) == n,
{
    let unit = spacing(n);
    lemma_spacing(n);
    lemma_to_single_lower(n);
    if n >= 0x100_0000 {
        lemma_spacing(n / 2);
    }
    vstd::arithmetic::div_mod::lemma_fundamental_div_mod(n as int, unit as int);
    let quotient = n / unit;
    assert(quotient * unit == unit * quotient && (quotient + 1) * unit == unit * quotient + unit)
        by (nonlinear_arith);
}

/// A spacing is a power of two, so that a smaller one divides a larger power.
proof fn lemma_spacing_divides(n: nat, k: nat)
    requires
        n < 0x100_0000 * pow2(k),
    ensures
        spacing(n) <= pow2(k),
        pow2(k) % spacing(n) == 0,
    decreases k,
{
    lemma_spacing(n);
    lemma_pow2_pos(k);
    if n < 0x100_0000 {
        assert(pow2(k) % 1 == 0);
    } else {
        if k == 0 {
            lemma2_to64();
        }
        lemma_pow2_unfold(k);
        assert(n / 2 < 0x100_0000 * pow2((k - 1) as nat)) by (nonlinear_arith)
            requires
                n < 0x100_0000 * pow2(k),
                pow2(k) == 2 * pow2((k - 1) as nat),
        ;
        lemma_spacing_divides(n / 2, (k - 1) as nat);
        let unit = spacing(n / 2);
        lemma_spacing(n / 2);
        let power = pow2((k - 1) as nat);
        vstd::arithmetic::div_mod::lemma_fundamental_div_mod(power as int, unit as int);
        let quotient = power / unit;
        assert(2 * power == (2 * unit) * quotient) by (nonlinear_arith)
            requires
                power == unit * quotient,
        ;
        vstd::arithmetic::div_mod::lemma_fundamental_div_mod_converse(
            (2 * power) as int,
            (2 * unit) as int,
            quotient as int,
            0,
        );
    }
}

/// The rank of the 95th percentile among up to 65536 samples is 95 hundredths of
/// the greatest rank, rounded to the nearest rank and half-way cases up.
pub proof fn law_rank_of_ninety_five(len: nat)
    requires
        0 < len <= 0x1_0000,
    ensures
        percentile_rank(0x42BE_0000, len) == (95 * (len - 1) + 50) / 100,
{
    lemma2_to64();
    lemma_length(len);
    let steps = (len - 1) as nat;
    let mantissa: nat = 15938355;
    let n: nat = 261134011597;
    assert(0x42BE_0000u32 % 0x80_0000 == 0x3E_0000 && 0x42BE_0000u32 / 0x80_0000 == 133);
    assert(0xBE_0000nat * 0x10_0000 / 100 == 130567005798 && 0xBE_0000nat * 0x10_0000 % 100 == 40);
    assert(spacing(n) == 16384) by {
        reveal_with_fuel(spacing, 16);
    }
    assert(to_single(n) == mantissa * 16384);
    let part = to_single(n);
    let product = to_single(part * steps);
    let half = pow2(37);
    lemma2_to64_rest();
    lemma_middle_rank(0xBE_0000, 132, part, product, half, len);
    let p = mantissa * steps;
    let q: nat = (19 * steps + 10) / 20;
    let t: nat = (19 * steps + 10) % 20;
    assert((95 * (len - 1) + 50) / 100 == q);
    let rank = (product + half) / (2 * half);
    if steps == 0 {
        assert(part * steps == 0) by (nonlinear_arith)
            requires
                steps == 0,
        ;
        lemma_to_single_lower(0);
        assert(half / (2 * half) == 0) by {
            vstd::arithmetic::div_mod::lemma_basic_div(half as int, 2 * half as int);
        }
    } else {
        assert(part * steps == p * pow2(14)) by (nonlinear_arith)
            requires
                part == mantissa * 16384,
                p == mantissa * steps,
                pow2(14) == 16384,
        ;
        lemma_to_single_scale(p, 14);
        let s = to_single(p);
        assert(product == s * 16384);
        let unit = spacing(p);
        lemma_spacing(p);
        lemma_to_single_error(p);
        assert(p < 0x100_0000 * pow2(16));
        lemma_spacing_divides(p, 16);
        assert(20 * (p + 0x80_0000) == 0x100_0000 * (20 * q + t) - 4 * steps);
        assert(s + 0x80_0000 >= 0x100_0000 * q && s + 0x80_0000 < 0x100_0000 * (q + 1)) by {
            if t == 0 {
                let target: int = 0x80_0000 * (2 * q - 1);
                let missing: int = target - p;
                assert(5 * missing == steps);
                assert(0x80_0000int % (unit as int) == 0) by {
                    vstd::arithmetic::div_mod::lemma_fundamental_div_mod(
                        0x1_0000,
                        unit as int,
                    );
                    let fits = 0x1_0000int / unit as int;
                    assert(0x80_0000 == unit * (fits * 128)) by (nonlinear_arith)
                        requires
                            0x1_0000 == unit * fits,
                    ;
                    vstd::arithmetic::div_mod::lemma_fundamental_div_mod_converse(
                        0x80_0000,
                        unit as int,
                        fits * 128,
                        0,
                    );
                }
                vstd::arithmetic::div_mod::lemma_fundamental_div_mod(0x80_0000, unit as int);
                let fits = 0x80_0000int / unit as int;
                let multiple = fits * (2 * q - 1);
                assert(target == unit * multiple) by (nonlinear_arith)
                    requires
                        target == 0x80_0000 * (2 * q - 1),
                        0x80_0000 == unit * fits,
                        multiple == fits * (2 * q - 1),
                ;
                assert(2 * missing < unit);
                assert(p == unit * (multiple - 1) + (unit - missing)) by (nonlinear_arith)
                    requires
                        target == unit * multiple,
                        missing == target - p,
                ;
                vstd::arithmetic::div_mod::lemma_fundamental_div_mod_converse(
                    p as int,
                    unit as int,
                    multiple - 1,
                    unit - missing,
                );
                assert(s == multiple * unit);
                assert(multiple * unit == unit * multiple) by (nonlinear_arith);
            }
        }
        assert(half == 0x20_0000_0000 && product + half == 16384 * (s + 0x80_0000));
        let r: int = s + 0x80_0000 - 0x100_0000 * q;
        vstd::arithmetic::div_mod::lemma_fundamental_div_mod_converse(
            (product + half) as int,
            (2 * half) as int,
            q as int,
            16384 * r,
        );
    }
}

/// For every percentage up to 100 and up to 65536 samples, the rank lies within
/// 53 hundredths of the share that the percentage stands for: the percentage, in
/// units of two to the minus 149th, of the greatest rank.
pub proof fn law_rank_is_the_share(pct: u32, len: nat)
    requires
        pct <= 0x42C8_0000,
        0 < len <= 0x1_0000,
    ensures
        100 * percentile_rank(pct, len) * pow2(149) <= single_units(pct) * (len - 1) + 53 * pow2(
            149,
        ),
        single_units(pct) * (len - 1) <= 100 * percentile_rank(pct, len) * pow2(149) + 53 * pow2(
            149,
        ),
        percentile_rank(pct, len) < len,
{
    let whole: int = pow2(149) as int;
    let units = single_units(pct);
    let steps: int = len - 1;
    lemma_length(len);
    lemma2_to64();
    lemma2_to64_rest();
    lemma_pow2_adds(64, 85);
    lemma_pow2_pos(85);
    assert(whole >= 0x1_0000_0000_0000_0000) by (nonlinear_arith)
        requires
            whole == pow2(64) * pow2(85),
            pow2(64) == 0x1_0000_0000_0000_0000,
            pow2(85) >= 1,
    ;
    lemma_units_monotone(pct, 0x42C8_0000);
    assert(single_units(0x42C8_0000) == 100 * pow2(149)) by {
        assert(0x42C8_0000u32 % 0x80_0000 == 0x48_0000 && 0x42C8_0000u32 / 0x80_0000 == 133);
        lemma_pow2_adds(17, 132);
        let power = pow2(132);
        assert(0xC8_0000 * power == 100 * (0x2_0000 * power)) by (nonlinear_arith);
    }
    let n = 2 * (units / 100) + if units % 100 == 0 {
        0nat
    } else {
        1
    };
    let h: int = to_single(n) as int;
    lemma_to_single_error(n);
    let off: int = h - n;
    assert(-n <= 0x100_0000 * off <= n);
    assert(n <= 2 * whole);
    let p: int = h * steps;
    assert(p >= 0) by (nonlinear_arith)
        requires
            p == h * steps,
            h >= 0,
            steps >= 0,
    ;
    assert((h as nat) * (steps as nat) == p);
    let rounded: int = to_single(p as nat) as int;
    lemma_to_single_error(p as nat);
    let slip: int = rounded - p;
    assert(-p <= 0x100_0000 * slip <= p);
    lemma_pow2_unfold(150);
    let r: int = (rounded + whole) / (2 * whole);
    vstd::arithmetic::div_mod::lemma_fundamental_div_mod(rounded + whole, 2 * whole);
    vstd::arithmetic::div_mod::lemma_mod_bound(rounded + whole, 2 * whole);
    assert((2 * whole) * r == 2 * (whole * r)) by (nonlinear_arith);
    assert(-whole <= rounded - 2 * (whole * r) <= whole);
    let np: int = n * steps;
    let op: int = off * steps;
    let up: int = units * steps;
    let gap: int = 50 * n - units;
    let gp: int = gap * steps;
    assert(p == np + op) by (nonlinear_arith)
        requires
            p == h * steps,
            off == h - n,
            np == n * steps,
            op == off * steps,
    ;
    assert(50 * np == up + gp) by (nonlinear_arith)
        requires
            np == n * steps,
            up == units * steps,
            gap == 50 * n - units,
            gp == gap * steps,
    ;
    assert(-50 <= gap <= 50);
    assert(-50 * 0x1_0000 <= gp <= 50 * 0x1_0000) by (nonlinear_arith)
        requires
            gp == gap * steps,
            -50 <= gap <= 50,
            0 <= steps <= 0x1_0000,
    ;
    assert(0 <= np <= 0x2_0000 * whole) by (nonlinear_arith)
        requires
            np == n * steps,
            0 <= n <= 2 * whole,
            0 <= steps <= 0x1_0000,
    ;
    assert(-np <= 0x100_0000 * op <= np) by (nonlinear_arith)
        requires
            op == off * steps,
            np == n * steps,
            -n <= 0x100_0000 * off <= n,
            0 <= steps,
    ;
    assert(100 * r * pow2(149) == 50 * (2 * (whole * r))) by (nonlinear_arith)
        requires
            whole == pow2(149),
    ;
    assert(up <= 100 * r * whole + 53 * whole && 100 * r * whole <= up + 53 * whole);
    assert(percentile_rank(pct, len) <= r);
    if r > steps {
        assert(up <= 100 * whole * steps) by (nonlinear_arith)
            requires
                up == units * steps,
                units <= 100 * whole,
                steps >= 0,
        ;
        assert(100 * steps * whole == 100 * whole * steps) by (nonlinear_arith);
        assert(100 * r * whole >= 100 * whole * steps) by (nonlinear_arith)
            requires
                r > steps,
                whole >= 0,
        ;
        assert(100 * r * whole >= 100 * whole * steps + 100 * whole) by (nonlinear_arith)
            requires
                r >= steps + 1,
                whole >= 0,
        ;
    }
}

/// The patterns of the percentages 50, 95 and 100 are those numbers, in units of
/// two to the minus 149th.
pub proof fn law_published_percentages()
    ensures
        single_units(0x4248_0000) == 50 * pow2(149),
        single_units(0x42BE_0000) == 95 * pow2(149),
        single_units(0x42C8_0000) == 100 * pow2(149),
        single_units(0) == 0,
{
    assert(0x42C8_0000u32 % 0x80_0000 == 0x48_0000 && 0x42C8_0000u32 / 0x80_0000 == 133);
    assert(0x42BE_0000u32 % 0x80_0000 == 0x3E_0000 && 0x42BE_0000u32 / 0x80_0000 == 133);
    assert(0x4248_0000u32 % 0x80_0000 == 0x48_0000 && 0x4248_0000u32 / 0x80_0000 == 132);
    lemma2_to64();
    lemma_pow2_adds(17, 132);
    lemma_pow2_unfold(132);
    let power = pow2(131);
    assert(0xC8_0000 * power == 50 * (0x2_0000 * (2 * power))) by (nonlinear_arith);
    assert(0xBE_0000 * (2 * power) == 95 * (0x2_0000 * (2 * power))) by (nonlinear_arith);
    assert(0xC8_0000 * (2 * power) == 100 * (0x2_0000 * (2 * power))) by (nonlinear_arith);
}

/// The greatest sample is one that no sample exceeds.
pub proof fn law_maximum_by_counting(samples: Seq<UtilizationSample>)
    requires
        samples.len() > 0,
        forall|i: int| 0 <= i < samples.len() ==> !single_is_nan(#[trigger] samples[i].value.bits),
    ensures
        samples.contains(samples[max_place(samples)]),
        samples.filter(
            |s: UtilizationSample|
                single_key(s.value.bits) > single_key(samples[max_place(samples)].value.bits),
        ).len() == 0,
{
    law_max_is_greatest(samples);
    let value = single_key(samples[max_place(samples)].value.bits);
    let more = |k: int| k > value;
    let keys = keys_of(samples);
    lemma_keys_counted(samples, more);
    assert((|s: UtilizationSample| more(single_key(s.value.bits))) =~= (
    |s: UtilizationSample| single_key(s.value.bits) > value));
    assert forall|i: int| 0 <= i < keys.len() implies !more(#[trigger] keys[i]) by {
        assert(single_key(samples[i].value.bits) <= value);
    }
    lemma_none_counted(keys, more);
}

/// A length loses little when it is taken in single precision, less one.
proof fn lemma_steps_error(len: nat)
    requires
        len > 0,
    ensures
        to_single(len) >= 1,
        -3 * len <= 0x100_0000 * (to_single((to_single(len) - 1) as nat) - (len - 1)) <= 3 * len,
{
    lemma_to_single_error(len);
    lemma_to_single_bound(len);
    lemma_to_single_error((to_single(len) - 1) as nat);
}

/// For every percentage up to 100 and any number of samples, the rank lies within one
/// and a 2^20th of the number of samples of the share that the percentage stands for:
/// the percentage, in units of two to the minus 149th, of the greatest rank.
pub proof fn law_rank_is_near_the_share(pct: u32, len: nat)
    requires
        pct <= 0x42C8_0000,
        0 < len <= u64::MAX,
    ensures
        0x10_0000 * (100 * percentile_rank(pct, len) * pow2(149)) <= 0x10_0000 * (single_units(pct)
            * (len - 1)) + 100 * pow2(149) * (len + 0x10_0000),
        0x10_0000 * (single_units(pct) * (len - 1)) <= 0x10_0000 * (100 * percentile_rank(pct, len)
            * pow2(149)) + 100 * pow2(149) * (len + 0x10_0000),
        percentile_rank(pct, len) < len,
{
    let whole: int = pow2(149) as int;
    let units = single_units(pct);
    let steps: int = len - 1;
    let taken: int = to_single((to_single(len) - 1) as nat) as int;
    lemma_steps_error(len);
    let e: int = taken - steps;
    lemma2_to64();
    lemma2_to64_rest();
    lemma_pow2_adds(64, 85);
    lemma_pow2_adds(64, 21);
    lemma_pow2_strictly_increases(21, 85);
    assert(whole >= 0x1_0000_0000_0000_0000 * 0x20_0000) by (nonlinear_arith)
        requires
            whole == pow2(64) * pow2(85),
            pow2(64) == 0x1_0000_0000_0000_0000,
            pow2(85) >= 0x20_0000,
    ;
    lemma_units_monotone(pct, 0x42C8_0000);
    law_published_percentages();
    let n = 2 * (units / 100) + if units % 100 == 0 {
        0nat
    } else {
        1
    };
    let h: int = to_single(n) as int;
    lemma_to_single_error(n);
    lemma_to_single_bound(n);
    let off: int = h - n;
    assert(-n <= 0x100_0000 * off <= n);
    assert(n <= 2 * whole);
    let p: int = h * taken;
    assert(0 <= p <= 8 * (whole * len)) by (nonlinear_arith)
        requires
            p == h * taken,
            0 <= h <= 4 * whole,
            0 <= taken <= 2 * len,
    ;
    assert((h as nat) * (taken as nat) == p);
    let rounded: int = to_single(p as nat) as int;
    lemma_to_single_error(p as nat);
    let slip: int = rounded - p;
    assert(-p <= 0x100_0000 * slip <= p);
    lemma_pow2_unfold(150);
    let r: int = (rounded + whole) / (2 * whole);
    vstd::arithmetic::div_mod::lemma_fundamental_div_mod(rounded + whole, 2 * whole);
    vstd::arithmetic::div_mod::lemma_mod_bound(rounded + whole, 2 * whole);
    assert((2 * whole) * r == 2 * (whole * r)) by (nonlinear_arith);
    assert(-whole <= rounded - 2 * (whole * r) <= whole);
    let np: int = n * steps;
    let ne: int = n * e;
    let ot: int = off * taken;
    let up: int = units * steps;
    let gap: int = 50 * n - units;
    let gp: int = gap * steps;
    assert(p == np + ne + ot) by (nonlinear_arith)
        requires
            p == h * taken,
            off == h - n,
            e == taken - steps,
            np == n * steps,
            ne == n * e,
            ot == off * taken,
    ;
    assert(50 * np == up + gp) by (nonlinear_arith)
        requires
            np == n * steps,
            up == units * steps,
            gap == 50 * n - units,
            gp == gap * steps,
    ;
    assert(-50 <= gap <= 50);
    assert(-50 * len <= gp <= 50 * len) by (nonlinear_arith)
        requires
            gp == gap * steps,
            -50 <= gap <= 50,
            0 <= steps <= len,
    ;
    assert(-6 * (whole * len) <= 0x100_0000 * ne <= 6 * (whole * len)) by (nonlinear_arith)
        requires
            ne == n * e,
            0 <= n <= 2 * whole,
            -3 * len <= 0x100_0000 * e <= 3 * len,
    ;
    assert(-4 * (whole * len) <= 0x100_0000 * ot <= 4 * (whole * len)) by (nonlinear_arith)
        requires
            ot == off * taken,
            0 <= n <= 2 * whole,
            -n <= 0x100_0000 * off <= n,
            0 <= taken <= 2 * len,
    ;
    let size: int = whole * len;
    assert(-18 * size <= 0x100_0000 * (rounded - np) <= 18 * size);
    assert(100 * r * whole == 50 * (2 * (whole * r))) by (nonlinear_arith);
    let rank: int = 100 * r * whole;
    assert(-900 * size - 0x100_0000 * (51 * whole) <= 0x100_0000 * (rank - up) <= 900 * size
        + 0x100_0000 * (51 * whole));
    assert(size >= 0) by (nonlinear_arith)
        requires
            size == whole * len,
            whole >= 0,
            len >= 0,
    ;
    assert(100 * whole * (len + 0x10_0000) == 100 * size + 0x10_0000 * (100 * whole))
        by (nonlinear_arith)
        requires
            size == whole * len,
    ;
    assert(0x10_0000 * rank <= 0x10_0000 * up + 100 * whole * (len + 0x10_0000));
    assert(0x10_0000 * up <= 0x10_0000 * rank + 100 * whole * (len + 0x10_0000));
    let least = percentile_rank(pct, len) as int;
    assert(least <= r);
    assert(100 * least * whole <= rank) by (nonlinear_arith)
        requires
            least <= r,
            rank == 100 * r * whole,
            whole >= 0,
    ;
    if r > steps {
        assert(least == steps);
        assert(up <= 100 * least * whole) by (nonlinear_arith)
            requires
                up == units * steps,
                units <= 100 * whole,
                steps >= 0,
                least == steps,
        ;
    }
}

/// Whether a rank among `len` samples lies within one and a 2^20th of their number of so
/// many hundredths of the greatest rank.
pub open spec fn near_share(rank: int, hundredths: int, len: nat) -> bool {
    -100 * (len + 0x10_0000) <= 0x10_0000 * (100 * rank - hundredths * (len - 1)) <= 100 * (len
        + 0x10_0000)
}

/// The published percentiles of any number of samples are those of ranks within one and
/// a 2^20th of the number of samples of half, and of 95 hundredths, of the greatest
/// rank.
pub proof fn law_published_ranks_are_near(len: nat)
    requires
        0 < len <= u64::MAX,
    ensures
        near_share(percentile_rank(0x4248_0000, len) as int, 50, len),
        near_share(percentile_rank(0x42BE_0000, len) as int, 95, len),
{
    law_published_percentages();
    law_rank_is_near_the_share(0x4248_0000, len);
    law_rank_is_near_the_share(0x42BE_0000, len);
    let whole: int = pow2(149) as int;
    lemma_pow2_pos(149);
    let (a, b) = (percentile_rank(0x4248_0000, len) as int, percentile_rank(
        0x42BE_0000,
        len,
    ) as int);
    lemma_divide(a, 50, len, whole);
    lemma_divide(b, 95, len, whole);
}

/// Leaves out the unit of a bound.
proof fn lemma_divide(rank: int, share: int, len: nat, whole: int)
    requires
        whole > 0,
        0x10_0000 * (100 * rank * whole) <= 0x10_0000 * ((share * whole) * (len - 1)) + 100 * whole
            * (len + 0x10_0000),
        0x10_0000 * ((share * whole) * (len - 1)) <= 0x10_0000 * (100 * rank * whole) + 100 * whole
            * (len + 0x10_0000),
    ensures
        -100 * (len + 0x10_0000) <= 0x10_0000 * (100 * rank - share * (len - 1)) <= 100 * (len
            + 0x10_0000),
{
    let difference: int = 0x10_0000 * (100 * rank - share * (len - 1));
    let bound: int = 100 * (len as int + 0x10_0000);
    assert(difference * whole == 0x10_0000 * (100 * rank * whole) - 0x10_0000 * ((share * whole) * (
    len - 1))) by (nonlinear_arith)
        requires
            difference == 0x10_0000 * (100 * rank - share * (len - 1)),
    ;
    assert(bound * whole == 100 * whole * (len + 0x10_0000)) by (nonlinear_arith)
        requires
            bound == 100 * (len + 0x10_0000),
    ;
    assert(-bound <= difference <= bound) by (nonlinear_arith)
        requires
            whole > 0,
            -(bound * whole) <= difference * whole <= bound * whole,
    ;
}

/// One more sample is the greatest one, unless it and the greatest so far are numbers
/// and it is less: of equal ones the last counts.
pub proof fn law_last_of_equal_maxima_counts(
    samples: Seq<UtilizationSample>,
    sample: UtilizationSample,
)
    ensures
        samples.len() == 0 ==> max_place(samples.push(sample)) == 0,
        samples.len() > 0 ==> ({
            let greatest = samples[max_place(samples)].value.bits;
            let less = !(0x7F80_0000 < greatest < 0x8000_0000 || greatest > 0xFF80_0000) && !(
            0x7F80_0000 < sample.value.bits < 0x8000_0000 || sample.value.bits > 0xFF80_0000)
                && single_key(sample.value.bits) < single_key(greatest);
            max_place(samples.push(sample)) == (if less {
                max_place(samples)
            } else {
                samples.len() as int
            })
        }),
{
    let longer = samples.push(sample);
    assert(longer.drop_last() =~= samples);
    if samples.len() > 0 {
        lemma_max_place(samples);
        assert(longer[max_place(samples)] == samples[max_place(samples)]);
    }
}

/// The greatest sample is one of the samples.
proof fn lemma_max_place(samples: Seq<UtilizationSample>)
    requires
        samples.len() > 0,
    ensures
        0 <= max_place(samples) < samples.len(),
    decreases samples.len(),
{
    if samples.len() > 1 {
        lemma_max_place(samples.drop_last());
    }
}

} // verus!
