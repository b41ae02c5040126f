//! Correctly rounded binary arithmetic over integers.
//!
//! A quantity is kept as `mantissa * 2^exponent`, where the mantissa has a
//! fixed number of bits. Every operation computes the exact result and rounds
//! it once, to the nearest such value and to the even mantissa on a tie, which
//! is how binary floating point is defined. The exponent is unbounded: the
//! callers turn the result into an integer that saturates, so a value that is
//! too large or too small for a machine format ends in the same integer.

use vstd::arithmetic::power2::{
    lemma_pow2_adds, lemma_pow2_pos, lemma_pow2_strictly_increases, lemma_pow2_unfold, lemma2_to64,
    lemma2_to64_rest, pow2,
};
use vstd::prelude::*;

verus! {

/// One more than the largest mantissa of single precision: 24 bits.
pub const SINGLE: u64 = 0x100_0000;

/// One more than the largest mantissa of double precision: 53 bits.
pub const DOUBLE: u64 = 0x20_0000_0000_0000;

/// The quotient rounded to the nearest integer, to the even one on a tie.
pub open spec fn half_even(n: nat, d: nat) -> nat {
    let quotient = n / d;
    let rest = n % d;
    if 2 * rest < d || (2 * rest == d && quotient % 2 == 0) {
        quotient
    } else {
        quotient + 1
    }
}

/// Doubles the numerator until the quotient reaches `floor`, lowering the
/// exponent each time.
pub open spec fn raised(n: nat, d: nat, exponent: int, floor: nat) -> (nat, int)
    decreases
            if n < d * floor {
                d * floor - n
            } else {
                0
            },
{
    if 0 < n && n < d * floor {
        raised(2 * n, d, exponent - 1, floor)
    } else {
        (n, exponent)
    }
}

/// Doubles the denominator until the quotient falls below `ceiling`, raising
/// the exponent each time.
pub open spec fn reduced(n: nat, d: nat, exponent: int, ceiling: nat) -> (nat, int)
    decreases
            if d <= n {
                n - d
            } else {
                0
            },
{
    if 0 < d && 1 < ceiling && d * ceiling <= n {
        proof {
            assert(2 * d <= d * ceiling) by (nonlinear_arith)
                requires
                    2 <= ceiling,
            ;
        }
        reduced(n, 2 * d, exponent + 1, ceiling)
    } else {
        (d, exponent)
    }
}

/// The mantissa and the exponent of `n / d * 2^exponent`, rounded to nearest
/// and to even. The quotient is first scaled by powers of two into the range
/// from half of `limit` up to `limit`.
pub open spec fn nearest(n: nat, d: nat, exponent: int, limit: nat) -> (nat, int) {
    if n == 0 {
        (0, 0)
    } else {
        let up = raised(n, d, exponent, limit / 2);
        let down = reduced(up.0, d, up.1, limit);
        (half_even(up.0, down.0), down.1)
    }
}

/// The integer part of `mantissa * 2^exponent`.
pub open spec fn whole(value: (nat, int)) -> nat {
    if value.1 >= 0 {
        value.0 * pow2(value.1 as nat)
    } else {
        value.0 / pow2((-value.1) as nat)
    }
}

/// The smaller of two numbers.
pub open spec fn at_most(value: nat, cap: nat) -> nat {
    if value <= cap {
        value
    } else {
        cap
    }
}

/// A rounded quantity: `mantissa * 2^exponent`.
#[derive(Debug, Clone, Copy, PartialEq, Eq, Structural)]
pub struct Rounded {
    /// The bits of the value.
    pub mantissa: u64,
    /// The power of two that scales them.
    pub exponent: i64,
}

impl Rounded {
    /// The mantissa and the exponent as mathematical numbers.
    pub open spec fn parts(self) -> (nat, int) {
        (self.mantissa as nat, self.exponent as int)
    }

    /// Whether the mantissa fits in `limit` and the exponent is small enough
    /// for one more operation.
    pub open spec fn fits(self, limit: nat, range: nat) -> bool {
        &&& self.mantissa <= limit
        &&& -range <= self.exponent <= range
    }
}

/// The power of two with this exponent.
fn power_of_two(exponent: u64) -> (power: u128)
    requires
        exponent <= 100,
    ensures
        power == pow2(exponent as nat),
{
    let mut power: u128 = 1;
    let mut i: u64 = 0;
    proof {
        lemma2_to64();
    }
    while i < exponent
        invariant
            i <= exponent <= 100,
            power == pow2(i as nat),
        decreases exponent - i,
    {
        proof {
            lemma_pow2_unfold((i + 1) as nat);
            lemma_pow2_strictly_increases((i + 1) as nat, 120);
            lemma_pow2_adds(64, 56);
            lemma2_to64_rest();
            lemma2_to64();
            assert(pow2(120) == 0x1_0000_0000_0000_0000 * 0x100_0000_0000_0000);
        }
        power = 2 * power;
        i = i + 1;
    }
    power
}

/// The quotient rounded to nearest, to even on a tie.
pub fn divide_half_even(n: u128, d: u128) -> (quotient: u128)
    requires
        0 < d,
        n < 0x4000_0000_0000_0000_0000_0000_0000_0000,
    ensures
        quotient == half_even(n as nat, d as nat),
{
    let quotient: u128 = n / d;
    let rest: u128 = n % d;
    proof {
        assert(n / d <= n) by (nonlinear_arith)
            requires
                0 < d,
        ;
    }
    if rest < d - rest || (rest == d - rest && quotient % 2 == 0) {
        quotient
    } else {
        quotient + 1
    }
}

/// Rounds `n / d * 2^exponent` to a mantissa of the given limit.
pub fn round_nearest(n: u128, d: u128, exponent: i64, limit: u64) -> (value: Rounded)
    requires
        n < 0x4000_0000_0000_0000_0000_0000_0000_0000,
        0 < d <= 0x1_0000_0000_0000_0000,
        -0x1000_0000 <= exponent <= 0x1000_0000,
        limit == SINGLE || limit == DOUBLE,
    ensures
        value.parts() == nearest(n as nat, d as nat, exponent as int, limit as nat),
        value.mantissa <= limit,
        n == 0 ==> value.exponent == 0,
        n > 0 ==> exponent - 127 <= value.exponent <= exponent + 127,
{
    if n == 0 {
        return Rounded { mantissa: 0, exponent: 0 };
    }
    let floor: u128 = (limit / 2) as u128;
    let ceiling: u128 = limit as u128;
    let mut top: u128 = n;
    let mut bottom: u128 = d;
    let mut power: i64 = exponent;
    let ghost mut steps: nat = 0;
    proof {
        lemma2_to64();
        lemma2_to64_rest();
        lemma_pow2_adds(64, 62);
        assert(pow2(126) == 0x1_0000_0000_0000_0000 * 0x4000_0000_0000_0000);
        assert(d * floor <= 0x1_0000_0000_0000_0000 * 0x10_0000_0000_0000) by (nonlinear_arith)
            requires
                d <= 0x1_0000_0000_0000_0000,
                floor <= 0x10_0000_0000_0000,
        ;
    }
    while top < d * floor
        invariant
            0 < top < 0x4000_0000_0000_0000_0000_0000_0000_0000,
            pow2(126) == 0x4000_0000_0000_0000_0000_0000_0000_0000,
            d * floor <= 0x1_0000_0000_0000_0000 * 0x10_0000_0000_0000,
            power == exponent - steps,
            pow2(steps) <= top,
            steps < 126,
            -0x1000_0000 <= exponent <= 0x1000_0000,
            raised(n as nat, d as nat, exponent as int, floor as nat) == raised(
                top as nat,
                d as nat,
                power as int,
                floor as nat,
            ),
        decreases
                if top < d * floor {
                    d * floor - top
                } else {
                    0
                },
    {
        proof {
            lemma_pow2_unfold(steps + 1);
            if steps + 1 >= 126 {
                if steps + 1 > 126 {
                    lemma_pow2_strictly_increases(126, steps + 1);
                }
                assert(false);
            }
        }
        top = 2 * top;
        power = power - 1;
        proof {
            steps = steps + 1;
        }
    }
    let ghost raised_power = power as int;
    let ghost ups = steps;
    proof {
        assert(raised(n as nat, d as nat, exponent as int, floor as nat) == (
            top as nat,
            power as int,
        ));
        assert(d * ceiling <= 0x1_0000_0000_0000_0000 * 0x20_0000_0000_0000) by (nonlinear_arith)
            requires
                d <= 0x1_0000_0000_0000_0000,
                ceiling <= 0x20_0000_0000_0000,
        ;
        steps = 0;
    }
    while bottom * ceiling <= top
        invariant
            0 < top < 0x4000_0000_0000_0000_0000_0000_0000_0000,
            pow2(126) == 0x4000_0000_0000_0000_0000_0000_0000_0000,
            0 < bottom,
            2 <= ceiling,
            bottom * ceiling < 0x8000_0000_0000_0000_0000_0000_0000_0000,
            power == raised_power + steps,
            raised_power == exponent - ups,
            ups < 126,
            pow2(steps) <= bottom,
            steps <= 126,
            -0x1000_0000 <= exponent <= 0x1000_0000,
            reduced(top as nat, d as nat, raised_power, ceiling as nat) == reduced(
                top as nat,
                bottom as nat,
                power as int,
                ceiling as nat,
            ),
        decreases
                if bottom <= top {
                    top - bottom
                } else {
                    0
                },
    {
        proof {
            assert(2 * bottom <= bottom * ceiling) by (nonlinear_arith)
                requires
                    2 <= ceiling,
            ;
            assert((2 * bottom) * ceiling == 2 * (bottom * ceiling)) by (nonlinear_arith);
            lemma_pow2_unfold(steps + 1);
            if steps >= 126 {
                assert(false);
            }
        }
        bottom = 2 * bottom;
        power = power + 1;
        proof {
            steps = steps + 1;
        }
    }
    let mantissa: u128 = divide_half_even(top, bottom);
    proof {
        assert(top as int / bottom as int <= ceiling - 1) by (nonlinear_arith)
            requires
                0 < bottom,
                top < bottom * ceiling,
        ;
    }
    Rounded { mantissa: mantissa as u64, exponent: power }
}

/// The integer part of a rounded value, saturating at `cap`.
pub fn to_integer(value: Rounded, cap: u64) -> (integer: u64)
    requires
        value.mantissa <= DOUBLE,
        value.exponent > i64::MIN,
    ensures
        integer == at_most(whole(value.parts()), cap as nat),
{
    if value.mantissa == 0 {
        proof {
            if value.exponent >= 0 {
                assert(0 * pow2(value.exponent as nat) == 0);
            } else {
                lemma_pow2_pos((-value.exponent) as nat);
                vstd::arithmetic::div_mod::lemma_div_basics(pow2((-value.exponent) as nat) as int);
            }
        }
        return 0;
    }
    proof {
        lemma2_to64();
        lemma2_to64_rest();
    }
    if value.exponent >= 64 {
        proof {
            if value.exponent > 64 {
                lemma_pow2_strictly_increases(64, value.exponent as nat);
            }
            let power = pow2(value.exponent as nat);
            assert(value.mantissa * power >= power) by (nonlinear_arith)
                requires
                    value.mantissa >= 1,
                    power >= 0,
            ;
        }
        return cap;
    }
    if value.exponent >= 0 {
        let power: u128 = power_of_two(value.exponent as u64);
        proof {
            if value.exponent < 63 {
                lemma_pow2_strictly_increases(value.exponent as nat, 63);
            }
            assert(value.mantissa * power <= 0x20_0000_0000_0000 * 0x8000_0000_0000_0000)
                by (nonlinear_arith)
                requires
                    value.mantissa <= 0x20_0000_0000_0000,
                    0 <= power <= 0x8000_0000_0000_0000,
            ;
        }
        let product: u128 = value.mantissa as u128 * power;
        return if product <= cap as u128 {
            product as u64
        } else {
            cap
        };
    }
    if value.exponent <= -64 {
        proof {
            if value.exponent < -64 {
                lemma_pow2_strictly_increases(64, (-value.exponent) as nat);
            }
            vstd::arithmetic::div_mod::lemma_basic_div(
                value.mantissa as int,
                pow2((-value.exponent) as nat) as int,
            );
        }
        return 0;
    }
    let power: u128 = power_of_two((-value.exponent) as u64);
    proof {
        lemma_pow2_pos((-value.exponent) as nat);
        vstd::arithmetic::div_mod::lemma_div_nonincreasing(value.mantissa as int, power as int);
    }
    let quotient: u128 = value.mantissa as u128 / power;
    if quotient <= cap as u128 {
        quotient as u64
    } else {
        cap
    }
}

/// A whole number in a precision: the multiple nearest to it of the smallest
/// power of two in which it has no more bits than `limit` allows.
pub open spec fn to_precision(n: nat, limit: nat) -> nat {
    let unit = reduced(n, 1, 0, limit).0;
    half_even(n, unit) * unit
}

/// Rounds a whole number to double precision.
pub fn round_to_double(n: u64) -> (value: u128)
    ensures
        value == to_precision(n as nat, DOUBLE as nat),
        value <= 2 * n,
        n < DOUBLE ==> value == n,
{
    let mut unit: u128 = 1;
    let ghost mut steps: int = 0;
    while unit * DOUBLE as u128 <= n as u128
        invariant
            0 < unit <= 0x1_0000,
            unit == 1 || unit <= n,
            reduced(n as nat, 1, 0, DOUBLE as nat) == reduced(
                n as nat,
                unit as nat,
                steps,
                DOUBLE as nat,
            ),
            n < DOUBLE ==> unit == 1,
        decreases 0x1_0000 - unit,
    {
        proof {
            assert(unit * 0x20_0000_0000_0000 <= 0xffff_ffff_ffff_ffff);
            assert(unit <= 0x800);
        }
        unit = 2 * unit;
        proof {
            steps = steps + 1;
        }
    }
    let multiple: u128 = divide_half_even(n as u128, unit);
    proof {
        let quotient = n as int / unit as int;
        assert(quotient * unit <= n) by (nonlinear_arith)
            requires
                unit > 0,
                quotient == n as int / unit as int,
        ;
        assert((quotient + 1) * unit == quotient * unit + unit) by (nonlinear_arith);
        if unit == 1 {
            assert(n as int / 1 == n);
            assert(n as int % 1 == 0);
        } else {
            assert(multiple * unit <= (quotient + 1) * unit) by (nonlinear_arith)
                requires
                    multiple <= quotient + 1,
                    unit > 0,
            ;
        }
        assert(multiple * 1 == multiple);
    }
    multiple * unit
}

/// The tenths in `mantissa * 2^exponent`, rounded to nearest and to even.
pub open spec fn tenths(value: (nat, int)) -> nat {
    if value.1 >= 0 {
        10 * value.0 * pow2(value.1 as nat)
    } else {
        half_even(10 * value.0, pow2((-value.1) as nat))
    }
}

/// Where the numerator ends when doubling it a number of times is known to
/// reach the floor.
proof fn lemma_raised_bounds(n: nat, d: nat, exponent: int, floor: nat, steps: nat)
    requires
        0 < n < 2 * (d * floor),
        n * pow2(steps) >= d * floor,
    ensures
        exponent - steps <= raised(n, d, exponent, floor).1 <= exponent,
        raised(n, d, exponent, floor).0 < 2 * (d * floor),
        n < d * floor ==> raised(n, d, exponent, floor).1 < exponent,
    decreases steps,
{
    if n < d * floor {
        if steps == 0 {
            vstd::arithmetic::power2::lemma2_to64();
            assert(n * pow2(0) == n) by (nonlinear_arith)
                requires
                    pow2(0) == 1,
            ;
        } else {
            lemma_pow2_unfold(steps);
            let rest = (steps - 1) as nat;
            assert((2 * n) * pow2(rest) == n * pow2(steps)) by (nonlinear_arith)
                requires
                    pow2(steps) == 2 * pow2(rest),
            ;
            lemma_raised_bounds(2 * n, d, exponent - 1, floor, rest);
        }
    }
}

/// The tenths of the double-precision quotient `n / d`.
pub fn quotient_tenths(n: u128, d: u128) -> (result: u128)
    requires
        0 < d <= n,
        n < d * 0x100_0000_0000,
        n < 0x4_0000_0000_0000_0000,
        d <= 0x1_0000_0000,
    ensures
        result == tenths(nearest(n as nat, d as nat, 0, DOUBLE as nat)),
        result < 0x400_0000_0000_0000,
{
    let value = round_nearest(n, d, 0, DOUBLE);
    proof {
        let floor: nat = DOUBLE as nat / 2;
        lemma2_to64_rest();
        assert(pow2(52) == 0x10_0000_0000_0000);
        assert(n * pow2(52) >= d * floor) by (nonlinear_arith)
            requires
                pow2(52) == floor,
                n >= d,
        ;
        assert(d * floor == d * 0x10_0000_0000_0000);
        assert(n < d * floor) by (nonlinear_arith)
            requires
                n < d * 0x100_0000_0000,
                floor == 0x10_0000_0000_0000,
                d > 0,
        ;
        lemma_raised_bounds(n as nat, d as nat, 0, floor, 52);
        let up = raised(n as nat, d as nat, 0, floor);
        assert(d * (DOUBLE as nat) == 2 * (d * floor)) by (nonlinear_arith)
            requires
                DOUBLE as nat == 2 * floor,
        ;
        assert(reduced(up.0, d as nat, up.1, DOUBLE as nat) == (d as nat, up.1));
        assert(-52 <= value.exponent < 0);
    }
    let power: u128 = power_of_two((-value.exponent) as u64);
    proof {
        lemma_pow2_pos((-value.exponent) as nat);
        assert(10 * value.mantissa as int / power as int <= 10 * value.mantissa) by (nonlinear_arith)
            requires
                power > 0,
        ;
    }
    divide_half_even(10 * value.mantissa as u128, power)
}

} // verus!
