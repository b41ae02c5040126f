//! How far rounding can move a number.
//!
//! A rounded quantity `mantissa * 2^exponent` is compared with others as the
//! fraction [`numerator`] over [`denominator`], so that every statement is one
//! about whole numbers.

use vstd::arithmetic::mul::{lemma_mul_equality_converse, lemma_mul_inequality_converse};
use vstd::arithmetic::power2::{lemma2_to64, lemma_pow2_adds, lemma_pow2_pos, lemma_pow2_unfold, pow2};
use vstd::prelude::*;

use crate::rounding::{half_even, nearest, raised, reduced, whole};

verus! {

/// Two to the exponent, where that is a whole number; one elsewhere.
pub open spec fn up(exponent: int) -> nat {
    if exponent >= 0 {
        pow2(exponent as nat)
    } else {
        1
    }
}

/// What divides by two to the exponent's opposite, where that is a whole
/// number; one elsewhere.
pub open spec fn down(exponent: int) -> nat {
    if exponent >= 0 {
        1
    } else {
        pow2((-exponent) as nat)
    }
}

/// The upper half of a rounded quantity, written as a fraction.
pub open spec fn numerator(value: (nat, int)) -> nat {
    value.0 * up(value.1)
}

/// The lower half of a rounded quantity, written as a fraction.
pub open spec fn denominator(value: (nat, int)) -> nat {
    down(value.1)
}

pub proof fn lemma_scales_are_positive(exponent: int)
    ensures
        up(exponent) >= 1,
        down(exponent) >= 1,
{
    if exponent >= 0 {
        lemma_pow2_pos(exponent as nat);
    } else {
        lemma_pow2_pos((-exponent) as nat);
    }
}

/// Exponents add.
pub proof fn lemma_scales_add(a: int, b: int)
    ensures
        up(a + b) * (down(a) * down(b)) == (up(a) * up(b)) * down(a + b),
{
    let (x, y) = if a >= 0 {
        (a as nat, 0nat)
    } else {
        (0nat, (-a) as nat)
    };
    let (z, w) = if b >= 0 {
        (b as nat, 0nat)
    } else {
        (0nat, (-b) as nat)
    };
    let (s, t) = if a + b >= 0 {
        ((a + b) as nat, 0nat)
    } else {
        (0nat, (-(a + b)) as nat)
    };
    lemma2_to64();
    lemma_pow2_adds(y, w);
    lemma_pow2_adds(x, z);
    lemma_pow2_adds(s, y + w);
    lemma_pow2_adds(x + z, t);
    assert(s + (y + w) == (x + z) + t);
}

proof fn lemma_raised_keeps_value(n: nat, d: nat, exponent: int, floor: nat)
    requires
        n > 0,
    ensures
        ({
            let after = raised(n, d, exponent, floor);
            &&& after.0 > 0
            &&& after.0 >= d * floor
            &&& after.0 * (up(after.1) * down(exponent)) == n * (up(exponent) * down(after.1))
        }),
    decreases
            if n < d * floor {
                d * floor - n
            } else {
                0
            },
{
    if n < d * floor {
        lemma_raised_keeps_value(2 * n, d, exponent - 1, floor);
        let after = raised(2 * n, d, exponent - 1, floor);
        lemma_scales_add(exponent, -1);
        lemma2_to64();
        lemma_scales_are_positive(exponent - 1);
        let (u0, d0) = (up(exponent) as int, down(exponent) as int);
        let (u1, d1) = (up(exponent - 1) as int, down(exponent - 1) as int);
        let (u2, d2) = (up(after.1) as int, down(after.1) as int);
        let top = after.0 as int;
        assert(up(-1) == 1 && down(-1) == 2);
        assert(u1 * (d0 * 2) == (u0 * 1) * d1);
        assert(top * (u2 * d1) == (2 * n) * (u1 * d2));
        assert(d1 * (top * (u2 * d0)) == d1 * (n * (u0 * d2))) by (nonlinear_arith)
            requires
                u1 * (d0 * 2) == (u0 * 1) * d1,
                top * (u2 * d1) == (2 * n) * (u1 * d2),
        {
            assert(d1 * (top * (u2 * d0)) == (top * (u2 * d1)) * d0);
            assert(((2 * n) * (u1 * d2)) * d0 == (u1 * (d0 * 2)) * (n * d2));
            assert(((u0 * 1) * d1) * (n * d2) == d1 * (n * (u0 * d2)));
        }
        lemma_mul_equality_converse(d1, top * (u2 * d0), n * (u0 * d2));
    }
}

proof fn lemma_reduced_keeps_value(n: nat, d: nat, exponent: int, floor: nat)
    requires
        d > 0,
        floor > 0,
        n >= d * floor,
    ensures
        ({
            let after = reduced(n, d, exponent, 2 * floor);
            &&& after.0 > 0
            &&& after.0 * floor <= n < after.0 * (2 * floor)
            &&& after.0 * (up(exponent) * down(after.1)) == d * (up(after.1) * down(exponent))
        }),
    decreases
            if d <= n {
                n - d
            } else {
                0
            },
{
    if d * (2 * floor) <= n {
        assert((2 * d) * floor == d * (2 * floor)) by (nonlinear_arith);
        assert(2 * d <= d * (2 * floor)) by (nonlinear_arith)
            requires
                floor >= 1,
        ;
        lemma_reduced_keeps_value(n, 2 * d, exponent + 1, floor);
        let after = reduced(n, 2 * d, exponent + 1, 2 * floor);
        lemma_scales_add(exponent, 1);
        lemma2_to64();
        lemma_scales_are_positive(exponent + 1);
        let (u0, d0) = (up(exponent) as int, down(exponent) as int);
        let (u1, d1) = (up(exponent + 1) as int, down(exponent + 1) as int);
        let (u2, d2) = (up(after.1) as int, down(after.1) as int);
        let bottom = after.0 as int;
        assert(up(1) == 2 && down(1) == 1);
        assert(u1 * (d0 * 1) == (u0 * 2) * d1);
        assert(bottom * (u1 * d2) == (2 * d) * (u2 * d1));
        assert(2 * d1 * (bottom * (u0 * d2)) == 2 * d1 * (d * (u2 * d0))) by (nonlinear_arith)
            requires
                u1 * (d0 * 1) == (u0 * 2) * d1,
                bottom * (u1 * d2) == (2 * d) * (u2 * d1),
        {
            assert(2 * d1 * (bottom * (u0 * d2)) == ((u0 * 2) * d1) * (bottom * d2));
            assert((u1 * (d0 * 1)) * (bottom * d2) == (bottom * (u1 * d2)) * d0);
            assert(((2 * d) * (u2 * d1)) * d0 == 2 * d1 * (d * (u2 * d0)));
        }
        lemma_mul_equality_converse(2 * d1, bottom * (u0 * d2), d * (u2 * d0));
    } else {
        assert(up(exponent) * down(exponent) == up(exponent) * down(exponent));
    }
}

/// The quotient that a rounding works on: its numerator, its denominator, and
/// how they stand to what is rounded.
proof fn lemma_nearest_parts(n: nat, d: nat, exponent: int, floor: nat) -> (parts: (nat, nat))
    requires
        n > 0,
        d > 0,
        floor > 0,
    ensures
        ({
            let (top, bottom) = parts;
            let value = nearest(n, d, exponent, 2 * floor);
            &&& bottom > 0
            &&& value.0 == half_even(top, bottom)
            &&& bottom * floor <= top < bottom * (2 * floor)
            &&& (top * up(value.1)) * (d * down(exponent)) == (n * up(exponent)) * (bottom * down(
                value.1,
            ))
        }),
{
    lemma_raised_keeps_value(n, d, exponent, floor);
    assert((2 * floor) / 2 == floor);
    let first = raised(n, d, exponent, floor);
    lemma_reduced_keeps_value(first.0, d, first.1, floor);
    let second = reduced(first.0, d, first.1, 2 * floor);
    let value = nearest(n, d, exponent, 2 * floor);
    let (top, bottom) = (first.0 as int, second.0 as int);
    let (u0, d0) = (up(exponent) as int, down(exponent) as int);
    let (u1, d1) = (up(first.1) as int, down(first.1) as int);
    let (u2, d2) = (up(second.1) as int, down(second.1) as int);
    lemma_scales_are_positive(first.1);
    assert(u1 * d1 > 0) by (nonlinear_arith)
        requires
            u1 >= 1,
            d1 >= 1,
    ;
    assert((u1 * d1) * ((top * u2) * (d * d0)) == (top * (u1 * d0)) * (d * (u2 * d1)))
        by (nonlinear_arith);
    assert((n * (u0 * d1)) * (bottom * (u1 * d2)) == (u1 * d1) * ((n * u0) * (bottom * d2)))
        by (nonlinear_arith);
    lemma_mul_equality_converse(u1 * d1, (top * u2) * (d * d0), (n * u0) * (bottom * d2));
    (first.0, second.0)
}

/// A positive number does not round to zero.
pub proof fn lemma_nearest_is_positive(n: nat, d: nat, exponent: int, floor: nat)
    requires
        n > 0,
        d > 0,
        floor > 0,
    ensures
        nearest(n, d, exponent, 2 * floor).0 > 0,
{
    let (top, bottom) = lemma_nearest_parts(n, d, exponent, floor);
    assert(top / bottom >= 1) by (nonlinear_arith)
        requires
            bottom * floor <= top,
            bottom > 0,
            floor > 0,
    ;
}

/// How a quotient stands to the integer it is rounded to.
proof fn lemma_half_even(n: nat, d: nat)
    requires
        d > 0,
    ensures
        2 * (half_even(n, d) * d) <= 2 * n + d,
        2 * n <= 2 * (half_even(n, d) * d) + d,
{
    let quotient = (n / d) as int;
    let rest = (n % d) as int;
    vstd::arithmetic::div_mod::lemma_fundamental_div_mod(n as int, d as int);
    assert(d * quotient == quotient * d) by (nonlinear_arith);
    assert((quotient + 1) * d == quotient * d + d) by (nonlinear_arith);
}

/// Rounding moves a number by no more than its `2 * floor`-th part.
pub proof fn lemma_nearest_is_close(n: nat, d: nat, exponent: int, floor: nat)
    requires
        n > 0,
        d > 0,
        floor > 0,
    ensures
        ({
            let value = nearest(n, d, exponent, 2 * floor);
            let exact = (n * up(exponent)) * denominator(value);
            let rounded = numerator(value) * (d * down(exponent));
            &&& (2 * floor) * rounded <= (2 * floor + 1) * exact
            &&& (2 * floor) * rounded >= (2 * floor - 1) * exact
        }),
{
    let value = nearest(n, d, exponent, 2 * floor);
    let parts = lemma_nearest_parts(n, d, exponent, floor);
    let (top, bottom) = (parts.0 as int, parts.1 as int);
    lemma_half_even(parts.0, parts.1);
    let m = value.0 as int;
    let f = floor as int;
    let (u, v) = (up(value.1) as int, down(value.1) as int);
    let e = (d * down(exponent)) as int;
    let x = (n * up(exponent)) as int;
    lemma_scales_are_positive(value.1);
    lemma_scales_are_positive(exponent);
    let scale = u * e;
    assert(scale >= 0) by (nonlinear_arith)
        requires
            scale == u * e,
            u >= 0,
            e >= 0,
    ;
    assert((top * u) * e == x * (bottom * v));
    assert((2 * f) * (m * bottom) <= (2 * f + 1) * top) by (nonlinear_arith)
        requires
            2 * (m * bottom) <= 2 * top + bottom,
            bottom * f <= top,
            f > 0,
    ;
    assert((2 * f) * (m * bottom) >= (2 * f - 1) * top) by (nonlinear_arith)
        requires
            2 * top <= 2 * (m * bottom) + bottom,
            bottom * f <= top,
            f > 0,
    ;
    let exact = x * v;
    let rounded = (m * u) * e;
    let (less, more) = ((2 * f - 1) * top, (2 * f + 1) * top);
    let middle = (2 * f) * (m * bottom);
    assert(((2 * f) * rounded) * bottom == middle * scale) by (nonlinear_arith)
        requires
            rounded == (m * u) * e,
            middle == (2 * f) * (m * bottom),
            scale == u * e,
    ;
    assert(less * scale <= middle * scale <= more * scale) by (nonlinear_arith)
        requires
            less <= middle <= more,
            scale >= 0,
    ;
    assert(less * scale == (2 * f - 1) * ((top * u) * e)) by (nonlinear_arith)
        requires
            less == (2 * f - 1) * top,
            scale == u * e,
    ;
    assert(more * scale == (2 * f + 1) * ((top * u) * e)) by (nonlinear_arith)
        requires
            more == (2 * f + 1) * top,
            scale == u * e,
    ;
    assert((2 * f - 1) * (x * (bottom * v)) == ((2 * f - 1) * (x * v)) * bottom)
        by (nonlinear_arith);
    assert((2 * f + 1) * (x * (bottom * v)) == ((2 * f + 1) * (x * v)) * bottom)
        by (nonlinear_arith);
    lemma_mul_inequality_converse((2 * f) * rounded, (2 * f + 1) * exact, bottom);
    lemma_mul_inequality_converse((2 * f - 1) * exact, (2 * f) * rounded, bottom);
}

/// Rounding does not carry a number across a whole one that the precision can
/// hold.
pub proof fn lemma_nearest_respects(n: nat, d: nat, exponent: int, floor: nat, bound: nat)
    requires
        n > 0,
        d > 0,
        floor > 0,
        bound <= 2 * floor,
    ensures
        ({
            let value = nearest(n, d, exponent, 2 * floor);
            &&& n * up(exponent) >= bound * (d * down(exponent)) ==> numerator(value) >= bound
                * denominator(value)
            &&& n * up(exponent) <= bound * (d * down(exponent)) ==> numerator(value) <= bound
                * denominator(value)
        }),
{
    let value = nearest(n, d, exponent, 2 * floor);
    let parts = lemma_nearest_parts(n, d, exponent, floor);
    let (top, bottom) = (parts.0 as int, parts.1 as int);
    let (u, v) = (up(value.1) as int, down(value.1) as int);
    let e = (d * down(exponent)) as int;
    let x = (n * up(exponent)) as int;
    let k = bound as int;
    let f = floor as int;
    let m = value.0 as int;
    lemma_scales_are_positive(value.1);
    lemma_scales_are_positive(exponent);
    assert(e > 0) by (nonlinear_arith)
        requires
            e == d * down(exponent),
            d > 0,
            down(exponent) >= 1,
    ;
    assert((top * u) * e == x * (bottom * v));
    let quotient = top / bottom;
    vstd::arithmetic::div_mod::lemma_fundamental_div_mod(top, bottom);
    assert(quotient >= f) by (nonlinear_arith)
        requires
            top == bottom * quotient + top % bottom,
            top % bottom < bottom,
            bottom * f <= top,
            bottom > 0,
    ;
    if value.1 > 0 {
        lemma_pow2_unfold(value.1 as nat);
        lemma_pow2_pos((value.1 - 1) as nat);
        assert(u >= 2 && v == 1);
    }
    if x >= k * e {
        assert((top * u) * e >= (k * (bottom * v)) * e) by (nonlinear_arith)
            requires
                (top * u) * e == x * (bottom * v),
                x >= k * e,
                bottom * v >= 0,
        {
            assert(x * (bottom * v) >= (k * e) * (bottom * v));
            assert((k * e) * (bottom * v) == (k * (bottom * v)) * e);
        }
        lemma_mul_inequality_converse(k * (bottom * v), top * u, e);
        if value.1 > 0 {
            assert(m * u >= k * v) by (nonlinear_arith)
                requires
                    m >= f,
                    u >= 2,
                    v == 1,
                    k <= 2 * f,
                    f > 0,
            ;
        } else {
            lemma2_to64();
            assert(u == 1);
            assert(quotient >= k * v) by (nonlinear_arith)
                requires
                    top == bottom * quotient + top % bottom,
                    top % bottom < bottom,
                    top * 1 >= k * (bottom * v),
                    bottom > 0,
            ;
        }
    }
    if x <= k * e {
        assert((top * u) * e <= (k * (bottom * v)) * e) by (nonlinear_arith)
            requires
                (top * u) * e == x * (bottom * v),
                x <= k * e,
                bottom * v >= 0,
        {
            assert(x * (bottom * v) <= (k * e) * (bottom * v));
            assert((k * e) * (bottom * v) == (k * (bottom * v)) * e);
        }
        lemma_mul_inequality_converse(top * u, k * (bottom * v), e);
        let rest = top % bottom;
        if value.1 > 0 {
            assert(top == bottom * f && u == 2 && k == 2 * f) by (nonlinear_arith)
                requires
                    top * u <= k * (bottom * v),
                    v == 1,
                    u >= 2,
                    k <= 2 * f,
                    bottom * f <= top,
                    bottom > 0,
                    f > 0,
            {
                assert(top * u >= (bottom * f) * u);
                assert((bottom * f) * u >= (bottom * f) * 2);
                assert(k * (bottom * v) <= (2 * f) * bottom);
                assert((bottom * f) * 2 == (2 * f) * bottom);
                assert(top * u == (bottom * f) * 2);
                assert(top * 2 <= top * u);
                assert(u == 2) by {
                    if u >= 3 {
                        assert(top * u >= top * 3);
                        assert(top > 0);
                    }
                }
                assert(k * bottom == (2 * f) * bottom);
            }
            assert(quotient == f && rest == 0) by (nonlinear_arith)
                requires
                    top == bottom * quotient + rest,
                    0 <= rest < bottom,
                    top == bottom * f,
                    bottom > 0,
            ;
        } else {
            lemma2_to64();
            assert(u == 1);
            let limit = k * v;
            assert(quotient < limit || (quotient == limit && rest == 0)) by (nonlinear_arith)
                requires
                    top == bottom * quotient + rest,
                    0 <= rest < bottom,
                    top * 1 <= k * (bottom * v),
                    limit == k * v,
                    bottom > 0,
            {
                assert(k * (bottom * v) == bottom * limit);
                if quotient > limit {
                    assert(bottom * quotient >= bottom * (limit + 1));
                }
            }
        }
    }
}

/// The integer part of a rounded quantity against a whole number.
pub proof fn lemma_whole_respects(value: (nat, int), bound: nat)
    ensures
        numerator(value) >= bound * denominator(value) ==> whole(value) >= bound,
        numerator(value) < (bound + 1) * denominator(value) ==> whole(value) <= bound,
{
    lemma_scales_are_positive(value.1);
    let top = numerator(value) as int;
    let bottom = denominator(value) as int;
    let k = bound as int;
    if value.1 >= 0 {
        assert(whole(value) == top);
    } else {
        assert(value.0 * 1 == value.0);
        let quotient = top / bottom;
        vstd::arithmetic::div_mod::lemma_fundamental_div_mod(top, bottom);
        assert(top >= k * bottom ==> quotient >= k) by (nonlinear_arith)
            requires
                top == bottom * quotient + top % bottom,
                top % bottom < bottom,
                bottom > 0,
        ;
        assert(top < (k + 1) * bottom ==> quotient <= k) by (nonlinear_arith)
            requires
                top == bottom * quotient + top % bottom,
                top % bottom >= 0,
                bottom > 0,
        ;
    }
}

/// A quotient is rounded to the integer nearest to it, and to the even one where
/// two are equally near.
pub proof fn law_a_quotient_goes_to_the_nearest_integer(n: nat, d: nat)
    requires
        d > 0,
    ensures
        ({
            let rounded = half_even(n, d);
            &&& 2 * (rounded * d) <= 2 * n + d
            &&& 2 * n <= 2 * (rounded * d) + d
            &&& 2 * (rounded * d) == 2 * n + d || 2 * n == 2 * (rounded * d) + d ==> rounded % 2
                == 0
        }),
{
    let quotient = (n / d) as int;
    let rest = (n % d) as int;
    vstd::arithmetic::div_mod::lemma_fundamental_div_mod(n as int, d as int);
    assert(d * quotient == quotient * d) by (nonlinear_arith);
    assert((quotient + 1) * d == quotient * d + d) by (nonlinear_arith);
}

/// A number is rounded to a mantissa between half of the limit and the limit, off
/// by no more than half of the last place, and to an even mantissa where it lies
/// in the middle between two. Both numbers are compared as fractions.
pub proof fn law_a_number_goes_to_the_nearest_mantissa(n: nat, d: nat, exponent: int, floor: nat)
    requires
        n > 0,
        d > 0,
        floor > 0,
    ensures
        ({
            let value = nearest(n, d, exponent, 2 * floor);
            let exact = (n * up(exponent)) * down(value.1);
            let rounded = (value.0 * up(value.1)) * (d * down(exponent));
            let place = up(value.1) * (d * down(exponent));
            &&& floor <= value.0 <= 2 * floor
            &&& 2 * rounded <= 2 * exact + place
            &&& 2 * exact <= 2 * rounded + place
            &&& 2 * rounded == 2 * exact + place || 2 * exact == 2 * rounded + place ==> value.0 % 2
                == 0
        }),
{
    let value = nearest(n, d, exponent, 2 * floor);
    let parts = lemma_nearest_parts(n, d, exponent, floor);
    let (top, bottom) = (parts.0 as int, parts.1 as int);
    law_a_quotient_goes_to_the_nearest_integer(parts.0, parts.1);
    let m = value.0 as int;
    let f = floor as int;
    let (u, v) = (up(value.1) as int, down(value.1) as int);
    let e = (d * down(exponent)) as int;
    let x = (n * up(exponent)) as int;
    lemma_scales_are_positive(value.1);
    lemma_scales_are_positive(exponent);
    assert(e > 0) by (nonlinear_arith)
        requires
            e == d * down(exponent),
            d > 0,
            down(exponent) >= 1,
    ;
    let place = u * e;
    assert(place > 0) by (nonlinear_arith)
        requires
            place == u * e,
            u >= 1,
            e > 0,
    ;
    let (exact, rounded) = (x * v, (m * u) * e);
    assert(exact * bottom == top * place) by {
        assert((top * u) * e == x * (bottom * v));
        assert((top * u) * e == top * place) by (nonlinear_arith)
            requires
                place == u * e,
        ;
        assert(x * (bottom * v) == (x * v) * bottom) by (nonlinear_arith);
    }
    assert(rounded == m * place) by (nonlinear_arith)
        requires
            rounded == (m * u) * e,
            place == u * e,
    ;
    let over = 2 * (m * bottom) - 2 * top;
    let gap = 2 * rounded - 2 * exact;
    assert(gap * bottom == over * place) by (nonlinear_arith)
        requires
            gap == 2 * rounded - 2 * exact,
            over == 2 * (m * bottom) - 2 * top,
            rounded == m * place,
            exact * bottom == top * place,
    ;
    assert(over * place <= bottom * place && over * place >= -bottom * place) by (nonlinear_arith)
        requires
            -bottom <= over <= bottom,
            place > 0,
    ;
    assert(gap * bottom <= place * bottom && (-place) * bottom <= gap * bottom)
        by (nonlinear_arith)
        requires
            gap * bottom == over * place,
            over * place <= bottom * place,
            over * place >= -bottom * place,
    ;
    lemma_mul_inequality_converse(gap, place, bottom);
    lemma_mul_inequality_converse(-place, gap, bottom);
    if gap == place || gap == -place {
        assert(over == bottom || over == -bottom) by (nonlinear_arith)
            requires
                gap * bottom == over * place,
                gap == place || gap == -place,
                place > 0,
        ;
    }
    assert(m >= f) by (nonlinear_arith)
        requires
            m >= top / bottom,
            bottom * f <= top,
            bottom > 0,
    ;
    assert(m <= 2 * f) by {
        let quotient = top / bottom;
        assert(quotient < 2 * f) by (nonlinear_arith)
            requires
                quotient == top / bottom,
                top < bottom * (2 * f),
                bottom > 0,
        ;
        assert(m <= quotient + 1);
    }
}

} // verus!
