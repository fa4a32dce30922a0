//! Binary64 numbers, worked on without floating point.
//!
//! A number is held by its bit pattern: one sign bit, eleven exponent bits
//! and fifty-two fraction bits. What a binary64 computation gives is stated
//! over whole numbers: the value of a pattern, and the value nearest to a
//! ratio, the even one of two equally near.

use vstd::arithmetic::div_mod::{lemma_fundamental_div_mod, lemma_multiply_divide_lt};
use vstd::arithmetic::power2::{
    lemma2_to64,
    lemma2_to64_rest,
    lemma_pow2_pos,
    lemma_pow2_strictly_increases,
    lemma_pow2_unfold,
    pow2,
};
use vstd::prelude::*;

verus! {

/// The weight of the sign bit: two to the 63.
pub const SIGN_WEIGHT: u64 = 0x8000_0000_0000_0000;

/// The weight of the lowest exponent bit, and of the hidden bit of a
/// significand: two to the 52.
pub const HIDDEN_BIT: u64 = 0x10_0000_0000_0000;

/// One more than the greatest significand: two to the 53.
pub const SIGNIFICAND_LIMIT: u64 = 0x20_0000_0000_0000;

/// The exponent field of the numbers from one up to two.
pub const EXPONENT_OF_ONE: u64 = 1023;

/// The exponent field at which a significand counts units.
pub const EXPONENT_OF_UNITS: u64 = 1075;

/// The exponent field of infinities and of what is no number.
pub const EXPONENT_SPECIAL: u64 = 2047;

/// The sign bit of a pattern.
pub open spec fn sign_of(bits: u64) -> nat {
    bits as nat / SIGN_WEIGHT as nat
}

/// The exponent field of a pattern.
pub open spec fn exponent_of(bits: u64) -> nat {
    (bits as nat / HIDDEN_BIT as nat) % 2048
}

/// The fraction field of a pattern.
pub open spec fn fraction_of(bits: u64) -> nat {
    bits as nat % HIDDEN_BIT as nat
}

/// The whole part of the number with the pattern `bits`, cut to what 64
/// bits hold: nothing for a negative number and for what is no number, the
/// greatest `u64` for what is larger.
pub open spec fn whole_part(bits: u64) -> nat {
    let exponent: nat = exponent_of(bits);
    let significand: nat = HIDDEN_BIT as nat + fraction_of(bits);
    if sign_of(bits) == 1 || exponent < EXPONENT_OF_ONE {
        0
    } else if exponent == EXPONENT_SPECIAL {
        if fraction_of(bits) == 0 {
            u64::MAX as nat
        } else {
            0
        }
    } else if exponent >= EXPONENT_OF_UNITS {
        let value: nat = significand * pow2((exponent - EXPONENT_OF_UNITS) as nat);
        if value > u64::MAX {
            u64::MAX as nat
        } else {
            value
        }
    } else {
        significand / pow2((EXPONENT_OF_UNITS - exponent) as nat)
    }
}

/// Two to the `k`.
pub(crate) fn power_of_two(k: u64) -> (p: u64)
    requires
        k < 64,
    ensures
        p == pow2(k as nat),
{
    let mut p: u64 = 1;
    let mut i: u64 = 0;
    proof {
        lemma2_to64();
    }
    while i < k
        invariant
            i <= k < 64,
            p == pow2(i as nat),
        decreases k - i,
    {
        proof {
            lemma_pow2_unfold((i + 1) as nat);
            lemma2_to64_rest();
            if i + 1 < 63 {
                lemma_pow2_strictly_increases((i + 1) as nat, 63);
            }
        }
        p = p * 2;
        i += 1;
    }
    p
}

/// A span of time in seconds, as the bit pattern of a binary64 number.
#[derive(Debug, Clone, Copy, PartialEq, Eq)]
pub struct Seconds {
    pub bits: u64,
}

impl Seconds {
    /// The whole seconds of the span: what is past the point is dropped, no
    /// rounding.
    pub fn whole(&self) -> (r: u64)
        ensures
            r == whole_part(self.bits),
    {
        let bits: u64 = self.bits;
        let sign: u64 = bits / SIGN_WEIGHT;
        let exponent: u64 = (bits / HIDDEN_BIT) % 2048;
        let fraction: u64 = bits % HIDDEN_BIT;
        if sign == 1 || exponent < EXPONENT_OF_ONE {
            return 0;
        }
        if exponent == EXPONENT_SPECIAL {
            return if fraction == 0 {
                u64::MAX
            } else {
                0
            };
        }
        let significand: u64 = HIDDEN_BIT + fraction;
        if exponent >= EXPONENT_OF_UNITS + 12 {
            proof {
                let shift: nat = (exponent - EXPONENT_OF_UNITS) as nat;
                lemma2_to64();
                if shift > 12 {
                    lemma_pow2_strictly_increases(12, shift);
                }
                let weight: nat = pow2(shift);
                assert(significand * weight >= 0x10_0000_0000_0000 * 4096) by (nonlinear_arith)
                    requires
                        significand >= 0x10_0000_0000_0000,
                        weight >= 4096,
                ;
            }
            u64::MAX
        } else if exponent >= EXPONENT_OF_UNITS {
            let weight: u64 = power_of_two(exponent - EXPONENT_OF_UNITS);
            proof {
                let shift: nat = (exponent - EXPONENT_OF_UNITS) as nat;
                lemma2_to64();
                if shift < 11 {
                    lemma_pow2_strictly_increases(shift, 11);
                }
                assert(significand * weight < 0x20_0000_0000_0000 * 2048) by (nonlinear_arith)
                    requires
                        significand < 0x20_0000_0000_0000,
                        weight <= 2048,
                ;
            }
            significand * weight
        } else {
            let weight: u64 = power_of_two(EXPONENT_OF_UNITS - exponent);
            proof {
                lemma_pow2_pos((EXPONENT_OF_UNITS - exponent) as nat);
            }
            significand / weight
        }
    }
}

/// The whole number nearest to `num / den`, the even one of two equally
/// near.
pub open spec fn round_half_even(num: nat, den: nat) -> nat {
    let quotient: nat = num / den;
    let rest: nat = num % den;
    if 2 * rest < den || (2 * rest == den && quotient % 2 == 0) {
        quotient
    } else {
        quotient + 1
    }
}

/// The whole number nearest to `num / den`, the even one of two equally
/// near.
pub(crate) fn rounded_ratio(num: u128, den: u128) -> (r: u128)
    requires
        den > 0,
        num < u128::MAX,
    ensures
        r == round_half_even(num as nat, den as nat),
        r <= num / den + 1,
{
    let quotient: u128 = num / den;
    let rest: u128 = num % den;
    proof {
        lemma_fundamental_div_mod(num as int, den as int);
        assert(quotient <= num) by (nonlinear_arith)
            requires
                num == den * quotient + rest,
                den >= 1,
                quotient >= 0,
                rest >= 0,
        ;
    }
    if rest < den - rest || (rest == den - rest && quotient % 2 == 0) {
        quotient
    } else {
        quotient + 1
    }
}

/// How many low bits of the whole number `n` a significand of 53 bits
/// cannot hold.
pub open spec fn excess_bits(n: nat) -> nat
    decreases n,
{
    if n < SIGNIFICAND_LIMIT {
        0
    } else {
        1 + excess_bits(n / 2)
    }
}

/// The binary64 number nearest to the whole number `n`, the one with the
/// even significand of two equally near. It is a whole number itself.
pub open spec fn nearest_to_whole(n: nat) -> nat {
    let weight: nat = pow2(excess_bits(n));
    round_half_even(n, weight) * weight
}

/// The binary64 number nearest to `n`, as the conversion of an integer
/// gives it.
pub fn nearest_whole(n: u64) -> (x: u128)
    ensures
        x == nearest_to_whole(n as nat),
        n < SIGNIFICAND_LIMIT ==> x == n,
        n > 0 ==> x > 0,
        x <= 0x1_0000_0000_0000_0000,
{
    let mut rest: u64 = n;
    let mut weight: u64 = 1;
    let ghost mut k: nat = 0;
    proof {
        lemma2_to64();
    }
    while rest >= SIGNIFICAND_LIMIT
        invariant
            excess_bits(n as nat) == k + excess_bits(rest as nat),
            weight == pow2(k),
            k <= 11,
            1 <= weight <= 2048,
            rest * weight <= n < (rest + 1) * weight,
            n > 0 ==> rest > 0,
        decreases rest,
    {
        proof {
            lemma2_to64();
            assert(weight < 2048) by (nonlinear_arith)
                requires
                    rest * weight <= n,
                    rest >= 0x20_0000_0000_0000,
                    n < 0x1_0000_0000_0000_0000,
                    weight >= 0,
            ;
            lemma_pow2_unfold(k + 1);
            if k + 1 < 11 {
                lemma_pow2_strictly_increases(k + 1, 11);
            }
            assert((rest / 2) * (weight * 2) <= rest * weight && (rest + 1) * weight <= (rest / 2
                + 1) * (weight * 2)) by (nonlinear_arith)
                requires
                    rest >= 0,
                    weight >= 0,
            ;
        }
        rest = rest / 2;
        weight = weight * 2;
        proof {
            k = k + 1;
        }
    }
    let rounded: u128 = rounded_ratio(n as u128, weight as u128);
    proof {
        assert(n < 0x20_0000_0000_0000 * weight) by (nonlinear_arith)
            requires
                n < (rest + 1) * weight,
                rest + 1 <= 0x20_0000_0000_0000,
                weight >= 1,
        ;
        lemma_multiply_divide_lt(n as int, weight as int, 0x20_0000_0000_0000);
        if n > 0 {
            assert(n >= weight) by (nonlinear_arith)
                requires
                    rest * weight <= n,
                    rest >= 1,
                    weight >= 1,
            ;
            vstd::arithmetic::div_mod::lemma_div_non_zero(n as int, weight as int);
            assert(rounded * weight > 0) by (nonlinear_arith)
                requires
                    rounded >= 1,
                    weight >= 1,
            ;
        }
        assert(rounded * weight <= 0x20_0000_0000_0000 * 2048) by (nonlinear_arith)
            requires
                rounded <= 0x20_0000_0000_0000,
                weight <= 2048,
                rounded >= 0,
                weight >= 0,
        ;
    }
    rounded * (weight as u128)
}

/// How many binary places past the point the binary64 number nearest to
/// `num / den` has, for a ratio above zero and below two to the 53: how
/// often `num` doubles before `num / den` reaches two to the 52.
pub open spec fn fraction_places(num: nat, den: nat) -> nat
    decreases den * SIGNIFICAND_LIMIT - num,
{
    if num == 0 || 2 * num >= den * SIGNIFICAND_LIMIT {
        0
    } else {
        1 + fraction_places(2 * num, den)
    }
}

/// The significand of the binary64 number nearest to `num / den`, the even
/// one of two equally near: that number is the significand over two to the
/// `fraction_places(num, den)`.
pub open spec fn significand_of_ratio(num: nat, den: nat) -> nat {
    round_half_even(num * pow2(fraction_places(num, den)), den)
}

/// The binary64 number nearest to `num / den`, in tenths, to the nearest
/// tenth, the even one of two equally near.
pub open spec fn ratio_tenths(num: nat, den: nat) -> nat {
    round_half_even(10 * significand_of_ratio(num, den), pow2(fraction_places(num, den)))
}

/// The binary64 number nearest to `num / den`, in tenths.
pub(crate) fn tenths_of_ratio(num: u128, den: u128) -> (tenths: u64)
    requires
        0 < den <= 0x4000_0000,
        0 < num < den * SIGNIFICAND_LIMIT,
    ensures
        tenths == ratio_tenths(num as nat, den as nat),
{
    let limit: u128 = den * (SIGNIFICAND_LIMIT as u128);
    let mut scaled: u128 = num;
    let mut weight: u128 = 1;
    let ghost mut places: nat = 0;
    proof {
        lemma2_to64();
    }
    while scaled < limit - scaled
        invariant
            limit == den * SIGNIFICAND_LIMIT,
            0 < den <= 0x4000_0000,
            0 < scaled < limit,
            scaled == num * weight,
            weight == pow2(places),
            1 <= weight <= scaled,
            fraction_places(num as nat, den as nat) == places + fraction_places(
                scaled as nat,
                den as nat,
            ),
        decreases limit - scaled,
    {
        proof {
            lemma_pow2_unfold(places + 1);
            assert(num * (weight * 2) == 2 * (num * weight)) by (nonlinear_arith);
            assert(weight * 2 <= num * (weight * 2)) by (nonlinear_arith)
                requires
                    num >= 1,
                    weight >= 0,
            ;
        }
        scaled = scaled * 2;
        weight = weight * 2;
        proof {
            places = places + 1;
        }
    }
    let significand: u128 = rounded_ratio(scaled, den);
    proof {
        lemma_multiply_divide_lt(scaled as int, den as int, SIGNIFICAND_LIMIT as int);
    }
    let tenths: u128 = rounded_ratio(10 * significand, weight);
    proof {
        let tenfold: int = 10 * significand;
        assert(tenfold / (weight as int) <= tenfold) by {
            vstd::arithmetic::div_mod::lemma_div_is_ordered_by_denominator(
                tenfold,
                1,
                weight as int,
            );
        }
    }
    tenths as u64
}

/// `round_half_even(num, den)` is as near to `num / den` as a whole number
/// can be: it lies within a half of it, and where it lies a half away it is
/// even.
pub proof fn lemma_round_half_even_is_nearest(num: nat, den: nat)
    requires
        den > 0,
    ensures
        2 * (round_half_even(num, den) * den) - den <= 2 * num,
        2 * num <= 2 * (round_half_even(num, den) * den) + den,
        2 * num == 2 * (round_half_even(num, den) * den) - den || 2 * num == 2 * (round_half_even(
            num,
            den,
        ) * den) + den ==> round_half_even(num, den) % 2 == 0,
{
    let quotient: nat = num / den;
    let rest: nat = num % den;
    lemma_fundamental_div_mod(num as int, den as int);
    assert((quotient + 1) * den == quotient * den + den) by (nonlinear_arith);
    assert(den * quotient == quotient * den) by (nonlinear_arith);
}

/// A whole number of 53 bits or fewer is a binary64 number.
pub proof fn lemma_small_whole_is_exact(n: nat)
    requires
        n < SIGNIFICAND_LIMIT,
    ensures
        nearest_to_whole(n) == n,
{
    lemma2_to64();
    assert(excess_bits(n) == 0);
    assert(pow2(0) == 1);
    assert(n / 1 == n && n % 1 == 0);
    assert(round_half_even(n, 1) == n);
    assert(n * 1 == n);
}

/// The bits that `excess_bits` counts are those that leave a significand of
/// exactly 53 bits.
pub proof fn lemma_excess_bits_leave_a_significand(n: nat)
    requires
        n >= SIGNIFICAND_LIMIT,
    ensures
        HIDDEN_BIT * pow2(excess_bits(n)) <= n < SIGNIFICAND_LIMIT * pow2(excess_bits(n)),
    decreases n,
{
    let half: nat = n / 2;
    lemma_pow2_unfold(excess_bits(n));
    if half >= SIGNIFICAND_LIMIT {
        lemma_excess_bits_leave_a_significand(half);
        let weight: nat = pow2(excess_bits(half));
        assert(HIDDEN_BIT * (2 * weight) <= n < SIGNIFICAND_LIMIT * (2 * weight))
            by (nonlinear_arith)
            requires
                HIDDEN_BIT * weight <= half < SIGNIFICAND_LIMIT * weight,
                half == n / 2,
        ;
    } else {
        lemma2_to64();
    }
}

/// The places that `fraction_places` counts are those that leave a
/// significand of exactly 53 bits.
pub proof fn lemma_fraction_places_leave_a_significand(num: nat, den: nat)
    requires
        0 < num < den * SIGNIFICAND_LIMIT,
    ensures
        den * HIDDEN_BIT <= num * pow2(fraction_places(num, den)) < den * SIGNIFICAND_LIMIT,
    decreases den * SIGNIFICAND_LIMIT - num,
{
    if 2 * num >= den * SIGNIFICAND_LIMIT {
        lemma2_to64();
        assert(den * SIGNIFICAND_LIMIT == 2 * (den * HIDDEN_BIT)) by (nonlinear_arith);
        assert(num * 1 == num);
    } else {
        lemma_fraction_places_leave_a_significand(2 * num, den);
        let places: nat = fraction_places(2 * num, den);
        lemma_pow2_unfold(places + 1);
        assert((2 * num) * pow2(places) == num * (2 * pow2(places))) by (nonlinear_arith);
    }
}

/// The tenths of a ratio lie near ten times the ratio: scaled by the weight
/// of the last binary place, they miss it by a half and by no more than ten
/// halves of that place.
pub proof fn lemma_ratio_tenths_are_near(num: nat, den: nat)
    requires
        den > 0,
    ensures
        pow2(fraction_places(num, den)) * (2 * (ratio_tenths(num, den) * den) - den - 20 * num)
            <= 10 * den,
        pow2(fraction_places(num, den)) * (20 * num - 2 * (ratio_tenths(num, den) * den) - den)
            <= 10 * den,
{
    let weight: nat = pow2(fraction_places(num, den));
    let scaled: nat = num * weight;
    let significand: nat = significand_of_ratio(num, den);
    let tenths: nat = ratio_tenths(num, den);
    lemma_pow2_pos(fraction_places(num, den));
    lemma_round_half_even_is_nearest(scaled, den);
    lemma_round_half_even_is_nearest(10 * significand, weight);
    let tw: int = (tenths * weight) as int;
    let sd: int = (significand * den) as int;
    let w: int = weight as int;
    let d: int = den as int;
    let n: int = num as int;
    let t: int = tenths as int;
    let g: int = significand as int;
    assert(2 * tw - w <= 20 * g <= 2 * tw + w);
    assert(2 * sd - d <= 2 * (n * w) <= 2 * sd + d);
    assert(w * (2 * (t * d) - d - 20 * n) == (2 * tw - w - 20 * g) * d + 10 * (2 * sd - 2 * (n
        * w))) by (nonlinear_arith)
        requires
            tw == t * w,
            sd == g * d,
    ;
    assert((2 * tw - w - 20 * g) * d <= 0) by (nonlinear_arith)
        requires
            2 * tw - w - 20 * g <= 0,
            d >= 0,
    ;
    assert(w * (20 * n - 2 * (t * d) - d) == (20 * g - 2 * tw - w) * d + 10 * (2 * (n * w) - 2
        * sd)) by (nonlinear_arith)
        requires
            tw == t * w,
            sd == g * d,
    ;
    assert((20 * g - 2 * tw - w) * d <= 0) by (nonlinear_arith)
        requires
            20 * g - 2 * tw - w <= 0,
            d >= 0,
    ;
}

} // verus!
