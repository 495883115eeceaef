//! IEEE-754 numbers as the telemetry carries them.
//!
//! A number is held by its bit pattern, on which comparison and
//! classification are integer arithmetic, together with the decimal text under
//! which it is published.
use crate::text::{decimal, u64_text};
use vstd::arithmetic::power2::pow2;
use vstd::prelude::*;

verus! {

/// A single-precision number: its bit pattern and its decimal text.
#[derive(Debug, PartialEq, Eq)]
pub struct Single {
    pub bits: u32,
    pub text: String,
}

/// A double-precision number: its bit pattern and its decimal text.
#[derive(Debug, PartialEq, Eq)]
pub struct Double {
    pub bits: u64,
    pub text: String,
}

impl Clone for Single {
    fn clone(&self) -> (copy: Self)
        ensures
            copy == *self,
    {
        Single { bits: self.bits, text: self.text.clone() }
    }
}

impl Clone for Double {
    fn clone(&self) -> (copy: Self)
        ensures
            copy == *self,
    {
        Double { bits: self.bits, text: self.text.clone() }
    }
}

/// Bit pattern of the single-precision number one.
pub const SINGLE_ONE: u32 = 0x3F80_0000;

/// Bit pattern of the double-precision number one.
pub const DOUBLE_ONE: u64 = 0x3FF0_0000_0000_0000;

/// The magnitude bits of a single-precision pattern: everything but the sign.
pub open spec fn single_magnitude(bits: u32) -> int {
    bits as int % 0x8000_0000
}

/// Whether a single-precision pattern is not a number.
pub open spec fn single_is_nan(bits: u32) -> bool {
    single_magnitude(bits) > 0x7F80_0000
}

/// The integer by which single-precision patterns are ordered: for two numbers
/// it compares as the numbers do, the two zeros are equal, and a pattern that
/// is not a number lies beyond the infinity of its sign.
pub open spec fn single_key(bits: u32) -> int {
    if bits >= 0x8000_0000u32 {
        -single_magnitude(bits)
    } else {
        single_magnitude(bits)
    }
}

/// Whether the number of pattern `a` is greater than that of pattern `b`;
/// false whenever one of them is not a number.
pub open spec fn single_greater(a: u32, b: u32) -> bool {
    !single_is_nan(a) && !single_is_nan(b) && single_key(a) > single_key(b)
}

/// Decides [`single_is_nan`].
pub fn single_nan(bits: u32) -> (nan: bool)
    ensures
        nan == single_is_nan(bits),
{
    bits % 0x8000_0000 > 0x7F80_0000
}

/// Computes [`single_key`].
pub fn single_order(bits: u32) -> (key: i64)
    ensures
        key == single_key(bits),
{
    if bits >= 0x8000_0000 {
        -((bits - 0x8000_0000) as i64)
    } else {
        bits as i64
    }
}

/// Decides [`single_greater`].
pub fn single_gt(a: u32, b: u32) -> (greater: bool)
    ensures
        greater == single_greater(a, b),
{
    let nan_a: bool = a % 0x8000_0000 > 0x7F80_0000;
    let nan_b: bool = b % 0x8000_0000 > 0x7F80_0000;
    !nan_a && !nan_b && single_order(a) > single_order(b)
}

/// The magnitude bits of a double-precision pattern: everything but the sign.
pub open spec fn double_magnitude(bits: u64) -> int {
    bits as int % 0x8000_0000_0000_0000
}

/// Whether a double-precision pattern is negative (the negative zero included).
pub open spec fn double_negative(bits: u64) -> bool {
    bits >= 0x8000_0000_0000_0000u64
}

/// Whether a double-precision pattern is a finite number.
pub open spec fn double_finite(bits: u64) -> bool {
    double_magnitude(bits) < 0x7FF0_0000_0000_0000
}

/// Whether a double-precision pattern compares greater than or equal to zero.
/// The negative zero does.
pub open spec fn double_at_least_zero(bits: u64) -> bool {
    (!double_negative(bits) && double_magnitude(bits) <= 0x7FF0_0000_0000_0000)
        || double_magnitude(bits) == 0
}

/// The significand of a double-precision pattern, as an integer.
pub open spec fn double_significand(bits: u64) -> nat {
    let fraction = double_magnitude(bits) % 0x10_0000_0000_0000;
    if double_magnitude(bits) < 0x10_0000_0000_0000 {
        fraction as nat
    } else {
        (fraction + 0x10_0000_0000_0000) as nat
    }
}

/// The power of two that the significand is multiplied by.
pub open spec fn double_exponent(bits: u64) -> int {
    let biased = double_magnitude(bits) / 0x10_0000_0000_0000;
    if biased == 0 {
        -1074
    } else {
        biased - 1075
    }
}

/// The integer part of the absolute value of a finite double-precision number.
pub open spec fn double_integer_part(bits: u64) -> nat {
    let exponent = double_exponent(bits);
    if exponent >= 0 {
        double_significand(bits) * pow2(exponent as nat)
    } else {
        double_significand(bits) / pow2((-exponent) as nat)
    }
}

/// A finite double-precision number cut to an `i64`: truncated toward zero and
/// held within the range of the type.
pub open spec fn double_to_i64(bits: u64) -> int {
    let magnitude = double_integer_part(bits) as int;
    if double_negative(bits) {
        if magnitude > 0x8000_0000_0000_0000 {
            -0x8000_0000_0000_0000
        } else {
            -magnitude
        }
    } else if magnitude > 0x7FFF_FFFF_FFFF_FFFF {
        0x7FFF_FFFF_FFFF_FFFF
    } else {
        magnitude
    }
}

/// A finite double-precision number that is not below zero, cut to a `u64`:
/// truncated toward zero and held within the range of the type.
pub open spec fn double_to_u64(bits: u64) -> int {
    let magnitude = double_integer_part(bits) as int;
    if magnitude > 0xFFFF_FFFF_FFFF_FFFF {
        0xFFFF_FFFF_FFFF_FFFF
    } else {
        magnitude
    }
}

/// Decides [`double_finite`].
pub fn is_finite(bits: u64) -> (finite: bool)
    ensures
        finite == double_finite(bits),
{
    bits % 0x8000_0000_0000_0000 < 0x7FF0_0000_0000_0000
}

/// Decides [`double_at_least_zero`].
pub fn is_at_least_zero(bits: u64) -> (at_least: bool)
    ensures
        at_least == double_at_least_zero(bits),
{
    bits <= 0x7FF0_0000_0000_0000 || bits == 0x8000_0000_0000_0000
}

/// The integer part of the absolute value of a finite number, or `None` when
/// it does not fit in 64 bits.
fn integer_part(bits: u64) -> (part: Option<u64>)
    requires
        double_finite(bits),
    ensures
        match part {
            Some(value) => value == double_integer_part(bits),
            None => double_integer_part(bits) > u64::MAX,
        },
{
    let magnitude: u64 = bits % 0x8000_0000_0000_0000;
    let biased: u64 = magnitude / 0x10_0000_0000_0000;
    let fraction: u64 = magnitude % 0x10_0000_0000_0000;
    if biased < 1023 {
        proof {
            lemma_below_one(bits);
        }
        return Some(0);
    }
    let significand: u64 = fraction + 0x10_0000_0000_0000;
    if biased < 1075 {
        let shift: u64 = 1075 - biased;
        proof {
            vstd::bits::lemma_u64_shr_is_div(significand, shift);
        }
        Some(significand >> shift)
    } else if biased <= 1086 {
        let shift: u64 = biased - 1075;
        proof {
            lemma_shift_fits(significand, shift);
        }
        Some(significand << shift)
    } else {
        proof {
            lemma_too_large(bits);
        }
        None
    }
}

/// A number whose biased exponent is below that of one has no integer part.
proof fn lemma_below_one(bits: u64)
    requires
        double_magnitude(bits) / 0x10_0000_0000_0000 < 1023,
    ensures
        double_integer_part(bits) == 0,
{
    let divisor = pow2((-double_exponent(bits)) as nat);
    vstd::arithmetic::power2::lemma2_to64_rest();
    if double_exponent(bits) != -53 {
        vstd::arithmetic::power2::lemma_pow2_strictly_increases(
            53,
            (-double_exponent(bits)) as nat,
        );
    }
    assert(double_significand(bits) < divisor);
    vstd::arithmetic::div_mod::lemma_basic_div(double_significand(bits) as int, divisor as int);
}

/// A 53-bit significand shifted left by up to eleven places stays in 64 bits.
proof fn lemma_shift_fits(significand: u64, shift: u64)
    requires
        significand < 0x20_0000_0000_0000,
        shift <= 11,
    ensures
        significand << shift == significand * pow2(shift as nat),
{
    vstd::arithmetic::power2::lemma2_to64();
    assert(pow2(shift as nat) <= 2048) by {
        if shift < 11 {
            vstd::arithmetic::power2::lemma_pow2_strictly_increases(shift as nat, 11);
        }
    }
    assert(significand * pow2(shift as nat) <= 0x1F_FFFF_FFFF_FFFF * 2048) by (nonlinear_arith)
        requires
            significand <= 0x1F_FFFF_FFFF_FFFF,
            pow2(shift as nat) <= 2048,
    ;
    vstd::bits::lemma_u64_shl_is_mul(significand, shift);
}

/// A number with a biased exponent above 1086 is at least two to the 64th.
proof fn lemma_too_large(bits: u64)
    requires
        double_magnitude(bits) / 0x10_0000_0000_0000 > 1086,
    ensures
        double_integer_part(bits) > u64::MAX,
{
    let shift = double_exponent(bits) as nat;
    vstd::arithmetic::power2::lemma2_to64();
    if shift > 12 {
        vstd::arithmetic::power2::lemma_pow2_strictly_increases(12, shift);
    }
    assert(
        double_significand(bits) * pow2(shift) >= 0x10_0000_0000_0000 * 4096
    ) by (nonlinear_arith)
        requires
            double_significand(bits) >= 0x10_0000_0000_0000,
            pow2(shift) >= 4096,
    ;
}

/// Computes [`double_to_i64`].
pub fn cut_to_i64(bits: u64) -> (value: i64)
    requires
        double_finite(bits),
    ensures
        value == double_to_i64(bits),
{
    let negative: bool = bits >= 0x8000_0000_0000_0000;
    match integer_part(bits) {
        None => if negative {
            i64::MIN
        } else {
            i64::MAX
        },
        Some(magnitude) => if negative {
            if magnitude >= 0x8000_0000_0000_0000 {
                i64::MIN
            } else {
                -(magnitude as i64)
            }
        } else if magnitude > 0x7FFF_FFFF_FFFF_FFFF {
            i64::MAX
        } else {
            magnitude as i64
        },
    }
}

/// Computes [`double_to_u64`].
pub fn cut_to_u64(bits: u64) -> (value: u64)
    requires
        double_finite(bits),
    ensures
        value == double_to_u64(bits),
{
    match integer_part(bits) {
        None => u64::MAX,
        Some(magnitude) => magnitude,
    }
}

/// Whether a double-precision pattern is that of the integer `n`.
pub open spec fn double_is_whole(bits: u64, n: nat) -> bool {
    &&& !double_negative(bits)
    &&& double_finite(bits)
    &&& double_integer_part(bits) == n
    &&& double_exponent(bits) < 0 ==> double_significand(bits) % pow2(
        (-double_exponent(bits)) as nat,
    ) == 0
}

/// Whether a number is the integer `n`, written in decimal digits.
pub open spec fn is_whole_number(value: Double, n: nat) -> bool {
    double_is_whole(value.bits, n) && value.text@ == decimal(n)
}

/// A positive integer below two to the 52nd that was doubled `k` times has room
/// for one more doubling.
proof fn lemma_doubled(n: nat, k: nat)
    requires
        n >= 1,
        n * pow2(k) < 0x10_0000_0000_0000,
    ensures
        n * pow2(k + 1) == n * pow2(k) * 2,
        k < 52,
{
    vstd::arithmetic::power2::lemma_pow2_unfold(k + 1);
    assert(n * (2 * pow2(k)) == n * pow2(k) * 2) by (nonlinear_arith);
    assert(pow2(k) <= n * pow2(k)) by (nonlinear_arith)
        requires
            n >= 1,
    ;
    vstd::arithmetic::power2::lemma2_to64_rest();
    if k > 52 {
        vstd::arithmetic::power2::lemma_pow2_strictly_increases(52, k);
    }
}

/// A significand that is `n` doubled `k` times makes the number `n` when its
/// exponent is lowered by `k`.
proof fn lemma_whole(bits: u64, n: nat, k: nat)
    requires
        !double_negative(bits),
        double_finite(bits),
        double_exponent(bits) == -k,
        double_significand(bits) == n * pow2(k),
    ensures
        double_is_whole(bits, n),
{
    if k == 0 {
        vstd::arithmetic::power2::lemma2_to64();
        assert(n * 1 * 1 == n);
    } else {
        vstd::arithmetic::power2::lemma_pow2_pos(k);
        vstd::arithmetic::div_mod::lemma_div_by_multiple(n as int, pow2(k) as int);
        vstd::arithmetic::div_mod::lemma_mod_multiples_basic(n as int, pow2(k) as int);
    }
}

/// The number `n`.
pub fn whole_number(n: u64) -> (value: Double)
    requires
        n < 0x20_0000_0000_0000,
    ensures
        is_whole_number(value, n as nat),
{
    let text = u64_text(n);
    if n == 0 {
        proof {
            lemma_whole(0, 0, 1074);
        }
        return Double { bits: 0, text };
    }
    let mut significand: u64 = n;
    let mut doublings: u64 = 0;
    proof {
        vstd::arithmetic::power2::lemma2_to64();
    }
    while significand < 0x10_0000_0000_0000
        invariant
            1 <= n,
            1 <= significand < 0x20_0000_0000_0000,
            significand == n * pow2(doublings as nat),
            doublings <= 52,
        decreases 0x20_0000_0000_0000 - significand,
    {
        proof {
            lemma_doubled(n as nat, doublings as nat);
        }
        significand = significand * 2;
        doublings = doublings + 1;
    }
    let bits: u64 = (1075 - doublings) * 0x10_0000_0000_0000 + (significand
        - 0x10_0000_0000_0000);
    proof {
        lemma_whole(bits, n as nat, doublings as nat);
    }
    Double { bits, text }
}

/// Zero is cut to zero, with either sign.
pub proof fn law_zero_is_zero()
    ensures
        double_is_whole(0, 0),
        double_to_u64(0) == 0,
        double_to_u64(0x8000_0000_0000_0000) == 0,
        double_to_i64(0x8000_0000_0000_0000) == 0,
{
    lemma_whole(0, 0, 1074);
    assert(double_integer_part(0x8000_0000_0000_0000) == double_integer_part(0));
}

/// A pattern that is a whole number is cut to that number, as far as the integer
/// type holds it.
pub proof fn law_truncation_of_whole_numbers(bits: u64, n: nat)
    ensures
        double_is_whole(bits, n) && n <= u64::MAX ==> double_to_u64(bits) == n,
        double_is_whole(bits, n) && n <= i64::MAX ==> double_to_i64(bits) == n,
        double_is_whole(bits, n) && n > u64::MAX ==> double_to_u64(bits) == u64::MAX,
        double_is_whole(bits, n) && n > i64::MAX ==> double_to_i64(bits) == i64::MAX,
{
}

/// The single-precision patterns are ordered as their numbers: the patterns
/// without a sign ascend, those with a sign descend, and every number with a
/// sign is below every one without, but for the zeros, which are equal.
pub proof fn law_patterns_are_ordered(a: u32, b: u32)
    ensures
        a < 0x8000_0000 && b < 0x8000_0000 ==> (single_key(a) < single_key(b) <==> a < b),
        a >= 0x8000_0000 && b >= 0x8000_0000 ==> (single_key(a) < single_key(b) <==> a > b),
        a >= 0x8000_0000 && b < 0x8000_0000 ==> (single_key(a) < single_key(b) <==> a
            != 0x8000_0000 || b != 0),
        a >= 0x8000_0000 && b < 0x8000_0000 ==> single_key(a) <= single_key(b),
        single_key(0) == single_key(0x8000_0000),
{
}

/// A finite double-precision number with an exponent of its own lies between the
/// integer it is cut to and the next one.
pub proof fn law_cut_is_next_below(bits: u64)
    requires
        0x3FF0_0000_0000_0000 <= bits < 0x43E0_0000_0000_0000,
    ensures
        ({
            let significand = 0x10_0000_0000_0000 + bits % 0x10_0000_0000_0000;
            let exponent = bits / 0x10_0000_0000_0000 - 1075;
            let cut = double_to_i64(bits);
            if exponent >= 0 {
                cut == significand * pow2(exponent as nat)
            } else {
                cut * pow2((-exponent) as nat) <= significand && significand < (cut + 1) * pow2(
                    (-exponent) as nat,
                )
            }
        }),
        double_to_u64(bits) == double_to_i64(bits),
        double_to_i64((bits + 0x8000_0000_0000_0000) as u64) == -double_to_i64(bits),
{
    let magnitude = double_magnitude(bits);
    assert(magnitude == bits);
    let exponent = double_exponent(bits);
    let significand = double_significand(bits);
    if exponent >= 0 {
        vstd::arithmetic::power2::lemma2_to64();
        if exponent < 10 {
            vstd::arithmetic::power2::lemma_pow2_strictly_increases(exponent as nat, 10);
        }
        assert(significand * pow2(exponent as nat) <= 0x1F_FFFF_FFFF_FFFF * 1024)
            by (nonlinear_arith)
            requires
                significand <= 0x1F_FFFF_FFFF_FFFF,
                pow2(exponent as nat) <= 1024,
        ;
    } else {
        let divisor = pow2((-exponent) as nat);
        vstd::arithmetic::power2::lemma_pow2_pos((-exponent) as nat);
        vstd::arithmetic::div_mod::lemma_fundamental_div_mod(significand as int, divisor as int);
        let quotient = significand as int / divisor as int;
        let rest = significand as int % divisor as int;
        vstd::arithmetic::div_mod::lemma_mod_bound(significand as int, divisor as int);
        vstd::arithmetic::div_mod::lemma_div_pos_is_pos(significand as int, divisor as int);
        assert(quotient * divisor <= significand && significand < (quotient + 1) * divisor)
            by (nonlinear_arith)
            requires
                significand == divisor * quotient + rest,
                0 <= rest < divisor,
        ;
        assert(quotient <= significand) by (nonlinear_arith)
            requires
                quotient * divisor <= significand,
                divisor >= 1,
                quotient >= 0,
        ;
    }
    let other = (bits + 0x8000_0000_0000_0000) as u64;
    assert(double_magnitude(other) == magnitude);
}

/// What a pattern stands for goes by its magnitude bits: beyond the infinity it is not
/// a number, and the infinity is not finite; only patterns without a sign, and the
/// negative zero, are at least zero.
pub proof fn law_classes_of_patterns(single: u32, other: u32, double: u64)
    ensures
        single_is_nan(single) <==> 0x7F80_0000 < single < 0x8000_0000 || single > 0xFF80_0000,
        single_greater(single, other) ==> !single_is_nan(single) && !single_is_nan(other),
        !single_is_nan(single) && !single_is_nan(other) ==> (single_greater(single, other)
            <==> single_key(other) < single_key(single)),
        double_finite(double) <==> double < 0x7FF0_0000_0000_0000 || 0x8000_0000_0000_0000 <= double
            < 0xFFF0_0000_0000_0000,
        double_at_least_zero(double) <==> double <= 0x7FF0_0000_0000_0000 || double
            == 0x8000_0000_0000_0000,
{
}

/// Numbers between minus one and one are cut to zero.
pub proof fn law_fractions_are_cut_to_zero(bits: u64)
    requires
        bits < 0x3FF0_0000_0000_0000 || 0x8000_0000_0000_0000 <= bits < 0xBFF0_0000_0000_0000,
    ensures
        double_to_i64(bits) == 0,
        double_to_u64(bits) == 0,
{
    let exponent = double_exponent(bits);
    let significand = double_significand(bits);
    assert(exponent <= -53 && significand < 0x20_0000_0000_0000);
    vstd::arithmetic::power2::lemma2_to64_rest();
    if exponent < -53 {
        vstd::arithmetic::power2::lemma_pow2_strictly_increases(53, (-exponent) as nat);
    }
    let divisor = pow2((-exponent) as nat);
    vstd::arithmetic::div_mod::lemma_basic_div(significand as int, divisor as int);
}

/// Finite numbers beyond the range of the integer type are cut to its bounds.
pub proof fn law_large_numbers_are_cut_to_the_bounds(bits: u64)
    requires
        0x43E0_0000_0000_0000 <= bits < 0x7FF0_0000_0000_0000,
    ensures
        double_to_i64(bits) == i64::MAX,
        double_to_i64((bits + 0x8000_0000_0000_0000) as u64) == i64::MIN,
        bits >= 0x43F0_0000_0000_0000 ==> double_to_u64(bits) == u64::MAX,
{
    let exponent = double_exponent(bits);
    let significand = double_significand(bits);
    assert(exponent >= 11 && significand >= 0x10_0000_0000_0000);
    vstd::arithmetic::power2::lemma2_to64();
    if exponent > 11 {
        vstd::arithmetic::power2::lemma_pow2_strictly_increases(11, exponent as nat);
    }
    if exponent > 12 {
        vstd::arithmetic::power2::lemma_pow2_strictly_increases(12, exponent as nat);
    }
    let power = pow2(exponent as nat);
    assert(significand * power >= 0x10_0000_0000_0000 * 2048) by (nonlinear_arith)
        requires
            significand >= 0x10_0000_0000_0000,
            power >= 2048,
    ;
    if exponent >= 12 {
        assert(significand * power >= 0x10_0000_0000_0000 * 4096) by (nonlinear_arith)
            requires
                significand >= 0x10_0000_0000_0000,
                power >= 4096,
        ;
    }
    let other = (bits + 0x8000_0000_0000_0000) as u64;
    assert(double_magnitude(other) == double_magnitude(bits));
}

} // verus!
