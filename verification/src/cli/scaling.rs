//! What a factor, a percentage or a single side does to an image: how close the
//! lengths come to the exact ones.

use vstd::arithmetic::mul::{lemma_mul_equality_converse, lemma_mul_inequality_converse};
use vstd::arithmetic::power2::pow2;
use vstd::prelude::*;

use crate::cli::resize::{
    aspect, hundredth, over, scaled, single_of, times, unscaled, ResizeValue, Scalar, Single, HALF,
};
use crate::cli::sides::{
    law_the_derived_side_keeps_the_ratio, lemma_product, lemma_quotient, lemma_single_is_exact,
};
use crate::precision::{
    denominator, down, lemma_nearest_is_close, lemma_nearest_is_positive, lemma_nearest_respects,
    lemma_scales_are_positive, lemma_whole_respects, numerator, up,
};
use crate::rounding::{nearest, SINGLE};

verus! {

/// A length times a rounded number stays on its side of every whole number that
/// the precision holds.
proof fn lemma_scaled(length: nat, factor: (nat, int), bound: nat)
    requires
        0 < length <= SINGLE,
        0 < factor.0,
        bound <= SINGLE,
        SINGLE <= usize::MAX,
    ensures
        length * numerator(factor) >= bound * denominator(factor) ==> scaled(
            length,
            Scalar::Finite(factor.0, factor.1),
        ) >= bound,
        length * numerator(factor) <= bound * denominator(factor) ==> scaled(
            length,
            Scalar::Finite(factor.0, factor.1),
        ) <= bound,
{
    let a = single_of(length);
    lemma_single_is_exact(length);
    lemma_nearest_is_positive(length, 1, 0, HALF as nat);
    lemma_scales_are_positive(a.1);
    lemma_scales_are_positive(factor.1);
    lemma_product(a, factor);
    let e = a.1 + factor.1;
    lemma_scales_are_positive(e);
    let n = (a.0 * factor.0) as nat;
    assert(n > 0) by (nonlinear_arith)
        requires
            n == a.0 * factor.0,
            a.0 > 0,
            factor.0 > 0,
    ;
    let (da, db, ds) = (denominator(a) as int, denominator(factor) as int, down(e) as int);
    let top = (n * up(e)) as int;
    let (l, m, k) = (length as int, numerator(factor) as int, bound as int);
    assert(top * db == (l * m) * ds) by {
        assert(top * (da * db) == ((l * da) * m) * ds);
        assert(top * (da * db) == da * (top * db)) by (nonlinear_arith);
        assert(((l * da) * m) * ds == da * ((l * m) * ds)) by (nonlinear_arith);
        lemma_mul_equality_converse(da, top * db, (l * m) * ds);
    }
    if l * m >= k * db {
        assert((k * ds) * db <= top * db) by (nonlinear_arith)
            requires
                top * db == (l * m) * ds,
                l * m >= k * db,
                ds >= 1,
        ;
        lemma_mul_inequality_converse(k * ds, top, db);
    }
    if l * m <= k * db {
        assert(top * db <= (k * ds) * db) by (nonlinear_arith)
            requires
                top * db == (l * m) * ds,
                l * m <= k * db,
                ds >= 1,
        ;
        lemma_mul_inequality_converse(top, k * ds, db);
    }
    assert(bound * (1 * down(e)) == k * ds) by (nonlinear_arith)
        requires
            bound == k,
            down(e) == ds,
    ;
    lemma_nearest_respects(n, 1, e, HALF as nat, bound);
    let value = times(a, factor);
    lemma_whole_respects(value, bound);
    lemma_scales_are_positive(value.1);
    let dv = denominator(value) as int;
    assert((k + 1) * dv == k * dv + dv) by (nonlinear_arith);
}

/// A length over a rounded number stays on its side of every whole number that
/// the precision holds.
proof fn lemma_unscaled(length: nat, ratio: (nat, int), bound: nat)
    requires
        0 < length <= SINGLE,
        0 < ratio.0,
        bound <= SINGLE,
        SINGLE <= usize::MAX,
    ensures
        length * denominator(ratio) >= bound * numerator(ratio) ==> unscaled(
            length,
            Scalar::Finite(ratio.0, ratio.1),
        ) >= bound,
        length * denominator(ratio) <= bound * numerator(ratio) ==> unscaled(
            length,
            Scalar::Finite(ratio.0, ratio.1),
        ) <= bound,
{
    let a = single_of(length);
    lemma_single_is_exact(length);
    lemma_nearest_is_positive(length, 1, 0, HALF as nat);
    lemma_scales_are_positive(a.1);
    lemma_scales_are_positive(ratio.1);
    lemma_quotient(a, ratio);
    let f = a.1 - ratio.1;
    lemma_scales_are_positive(f);
    let (da, dr, df) = (denominator(a) as int, denominator(ratio) as int, down(f) as int);
    let top = (a.0 * up(f)) as int;
    let bottom = (ratio.0 * down(f)) as int;
    assert(bottom > 0) by (nonlinear_arith)
        requires
            bottom == ratio.0 * df,
            ratio.0 > 0,
            df >= 1,
    ;
    let (l, m, k) = (length as int, numerator(ratio) as int, bound as int);
    assert(m > 0) by (nonlinear_arith)
        requires
            m == ratio.0 * up(ratio.1),
            ratio.0 > 0,
            up(ratio.1) >= 1,
    ;
    assert(top * m == bottom * (l * dr)) by {
        assert(top * (m * da) == bottom * ((l * da) * dr));
        assert(top * (m * da) == da * (top * m)) by (nonlinear_arith);
        assert(bottom * ((l * da) * dr) == da * (bottom * (l * dr))) by (nonlinear_arith);
        lemma_mul_equality_converse(da, top * m, bottom * (l * dr));
    }
    if l * dr >= k * m {
        assert((k * bottom) * m <= top * m) by (nonlinear_arith)
            requires
                top * m == bottom * (l * dr),
                l * dr >= k * m,
                bottom >= 1,
        ;
        lemma_mul_inequality_converse(k * bottom, top, m);
    }
    if l * dr <= k * m {
        assert(top * m <= (k * bottom) * m) by (nonlinear_arith)
            requires
                top * m == bottom * (l * dr),
                l * dr <= k * m,
                bottom >= 1,
        ;
        lemma_mul_inequality_converse(top, k * bottom, m);
    }
    lemma_nearest_respects(a.0, ratio.0, f, HALF as nat, bound);
    let value = over(a, ratio);
    lemma_whole_respects(value, bound);
    lemma_scales_are_positive(value.1);
    let dv = denominator(value) as int;
    assert((k + 1) * dv == k * dv + dv) by (nonlinear_arith);
}

/// The aspect ratio is within one part in 2^24 of the exact one.
proof fn lemma_aspect(width: nat, height: nat)
    requires
        0 < width <= SINGLE,
        0 < height <= SINGLE,
    ensures
        aspect(width, height) matches Scalar::Finite(mantissa, exponent) && ({
            let value = (mantissa, exponent);
            &&& mantissa > 0
            &&& SINGLE * (numerator(value) * height) <= (SINGLE + 1) * (width * denominator(value))
            &&& SINGLE * (numerator(value) * height) >= (SINGLE - 1) * (width * denominator(value))
        }),
{
    let (a, b) = (single_of(width), single_of(height));
    lemma_single_is_exact(width);
    lemma_single_is_exact(height);
    lemma_nearest_is_positive(width, 1, 0, HALF as nat);
    lemma_nearest_is_positive(height, 1, 0, HALF as nat);
    lemma_scales_are_positive(a.1);
    lemma_scales_are_positive(b.1);
    lemma_quotient(a, b);
    let f = a.1 - b.1;
    lemma_scales_are_positive(f);
    let value = over(a, b);
    lemma_nearest_is_close(a.0, b.0, f, HALF as nat);
    lemma_nearest_is_positive(a.0, b.0, f, HALF as nat);
    lemma_scales_are_positive(value.1);
    let (da, db) = (denominator(a) as int, denominator(b) as int);
    let top = (a.0 * up(f)) as int;
    let bottom = (b.0 * down(f)) as int;
    let (w, h) = (width as int, height as int);
    let (nv, dv) = (numerator(value) as int, denominator(value) as int);
    assert(bottom > 0) by (nonlinear_arith)
        requires
            bottom == b.0 * down(f),
            b.0 > 0,
            down(f) >= 1,
    ;
    assert(da * db > 0) by (nonlinear_arith)
        requires
            da >= 1,
            db >= 1,
    ;
    assert(top * h == bottom * w) by {
        assert(top * ((h * db) * da) == bottom * ((w * da) * db));
        assert(top * ((h * db) * da) == (da * db) * (top * h)) by (nonlinear_arith);
        assert(bottom * ((w * da) * db) == (da * db) * (bottom * w)) by (nonlinear_arith);
        lemma_mul_equality_converse(da * db, top * h, bottom * w);
    }
    let s = SINGLE as int;
    assert(s * (nv * bottom) <= (s + 1) * (top * dv));
    assert(s * (nv * bottom) >= (s - 1) * (top * dv));
    assert((s * (nv * h)) * bottom <= ((s + 1) * (w * dv)) * bottom) by {
        assert((s * (nv * h)) * bottom == h * (s * (nv * bottom))) by (nonlinear_arith);
        assert(((s + 1) * (w * dv)) * bottom == h * ((s + 1) * (top * dv))) by (nonlinear_arith)
            requires
                top * h == bottom * w,
        ;
        assert(h * (s * (nv * bottom)) <= h * ((s + 1) * (top * dv))) by (nonlinear_arith)
            requires
                s * (nv * bottom) <= (s + 1) * (top * dv),
                h > 0,
        ;
    }
    assert((s * (nv * h)) * bottom >= ((s - 1) * (w * dv)) * bottom) by {
        assert((s * (nv * h)) * bottom == h * (s * (nv * bottom))) by (nonlinear_arith);
        assert(((s - 1) * (w * dv)) * bottom == h * ((s - 1) * (top * dv))) by (nonlinear_arith)
            requires
                top * h == bottom * w,
        ;
        assert(h * (s * (nv * bottom)) >= h * ((s - 1) * (top * dv))) by (nonlinear_arith)
            requires
                s * (nv * bottom) >= (s - 1) * (top * dv),
                h > 0,
        ;
    }
    lemma_mul_inequality_converse(s * (nv * h), (s + 1) * (w * dv), bottom);
    lemma_mul_inequality_converse((s - 1) * (w * dv), s * (nv * h), bottom);
}

/// A value with both sides asks for exactly those, whatever the image is like.
pub proof fn law_two_sides_are_met(w: usize, h: usize, width: nat, height: nat)
    ensures
        ResizeValue::Dimensions(Some(w), Some(h)).size(width, height) == (w as nat, h as nat),
{
    reveal(ResizeValue::size);
}

/// A value with one side makes that side exactly as long as asked for, whatever
/// the image is like, and one without a side leaves the image as it is.
pub proof fn law_one_side_is_met(side: usize, width: nat, height: nat)
    ensures
        ResizeValue::Dimensions(Some(side), None).size(width, height).0 == side,
        ResizeValue::Dimensions(None, Some(side)).size(width, height).1 == side,
        ResizeValue::Dimensions(None, None).size(width, height) == (width, height),
{
    reveal(ResizeValue::size);
}

/// A value with only a width keeps the aspect ratio: the height comes to a whole
/// number wherever the exact one, taken less by one part in 2^24, does, and it
/// does not come past one that the exact height, taken more by as much, does not
/// come past.
pub proof fn law_a_width_keeps_the_ratio(w: usize, width: nat, height: nat, bound: nat)
    requires
        0 < w <= SINGLE,
        0 < width <= SINGLE,
        0 < height <= SINGLE,
        bound <= SINGLE,
    ensures
        ({
            let size = ResizeValue::Dimensions(Some(w), None).size(width, height);
            &&& SINGLE * (w * height) >= (SINGLE + 1) * (bound * width) ==> size.1 >= bound
            &&& SINGLE * (w * height) <= (SINGLE - 1) * (bound * width) ==> size.1 <= bound
        }),
{
    reveal(ResizeValue::size);
    lemma_aspect(width, height);
    if let Scalar::Finite(mantissa, exponent) = aspect(width, height) {
        let value = (mantissa, exponent);
        lemma_scales_are_positive(exponent);
        let (nv, dv) = (numerator(value) as int, denominator(value) as int);
        let (l, k, x, y, s) = (w as int, bound as int, width as int, height as int, SINGLE as int);
        if s * (l * y) >= (s + 1) * (k * x) {
            assert((k * nv) * (s * y) <= (l * dv) * (s * y)) by (nonlinear_arith)
                requires
                    s * (l * y) >= (s + 1) * (k * x),
                    s * (nv * y) <= (s + 1) * (x * dv),
                    k >= 0,
                    dv >= 1,
            ;
            assert(s * y > 0) by (nonlinear_arith)
                requires
                    s > 0,
                    y > 0,
            ;
            lemma_mul_inequality_converse(k * nv, l * dv, s * y);
        }
        if s * (l * y) <= (s - 1) * (k * x) {
            assert((l * dv) * (s * y) <= (k * nv) * (s * y)) by (nonlinear_arith)
                requires
                    s * (l * y) <= (s - 1) * (k * x),
                    s * (nv * y) >= (s - 1) * (x * dv),
                    k >= 0,
                    dv >= 1,
            ;
            assert(s * y > 0) by (nonlinear_arith)
                requires
                    s > 0,
                    y > 0,
            ;
            lemma_mul_inequality_converse(l * dv, k * nv, s * y);
        }
        lemma_unscaled(w as nat, value, bound);
    }
}

/// A value with only a height keeps the aspect ratio: the width comes to a whole
/// number wherever the exact one, taken less by one part in 2^24, does, and it
/// does not come past one that the exact width, taken more by as much, does not
/// come past.
pub proof fn law_a_height_keeps_the_ratio(h: usize, width: nat, height: nat, bound: nat)
    requires
        0 < h <= SINGLE,
        0 < width <= SINGLE,
        0 < height <= SINGLE,
        bound <= SINGLE,
    ensures
        ({
            let size = ResizeValue::Dimensions(None, Some(h)).size(width, height);
            &&& (SINGLE - 1) * (h * width) >= SINGLE * (bound * height) ==> size.0 >= bound
            &&& (SINGLE + 1) * (h * width) <= SINGLE * (bound * height) ==> size.0 <= bound
        }),
{
    reveal(ResizeValue::size);
    lemma_aspect(width, height);
    if let Scalar::Finite(mantissa, exponent) = aspect(width, height) {
        let value = (mantissa, exponent);
        lemma_scales_are_positive(exponent);
        let (nv, dv) = (numerator(value) as int, denominator(value) as int);
        let (l, k, x, y, s) = (h as int, bound as int, width as int, height as int, SINGLE as int);
        assert(s * y > 0) by (nonlinear_arith)
            requires
                s > 0,
                y > 0,
        ;
        if (s - 1) * (l * x) >= s * (k * y) {
            assert((k * dv) * (s * y) <= (l * nv) * (s * y)) by (nonlinear_arith)
                requires
                    (s - 1) * (l * x) >= s * (k * y),
                    s * (nv * y) >= (s - 1) * (x * dv),
                    l >= 0,
                    dv >= 1,
            ;
            lemma_mul_inequality_converse(k * dv, l * nv, s * y);
        }
        if (s + 1) * (l * x) <= s * (k * y) {
            assert((l * nv) * (s * y) <= (k * dv) * (s * y)) by (nonlinear_arith)
                requires
                    (s + 1) * (l * x) <= s * (k * y),
                    s * (nv * y) <= (s + 1) * (x * dv),
                    l >= 0,
                    dv >= 1,
            ;
            lemma_mul_inequality_converse(l * nv, k * dv, s * y);
        }
        lemma_scaled(h as nat, value, bound);
    }
}

/// The number of a percentage over one hundred, within one part in 2^24.
proof fn lemma_hundredth(number: (nat, int))
    requires
        0 < number.0,
    ensures
        hundredth(Scalar::Finite(number.0, number.1)) matches Scalar::Finite(mantissa, exponent)
            && ({
            let value = (mantissa, exponent);
            &&& mantissa > 0
            &&& SINGLE * (numerator(value) * (100 * denominator(number))) <= (SINGLE + 1) * (
            numerator(number) * denominator(value))
            &&& SINGLE * (numerator(value) * (100 * denominator(number))) >= (SINGLE - 1) * (
            numerator(number) * denominator(value))
        }),
{
    lemma_nearest_is_close(number.0, 100, number.1, HALF as nat);
    lemma_nearest_is_positive(number.0, 100, number.1, HALF as nat);
}

/// A factor scales each side by itself: a side comes to every whole number that
/// the exact product comes to, and not past one that the exact product does not
/// come past. Here the factor is `mantissa * 2^exponent`, written as the fraction
/// of `up(exponent)` and `down(exponent)`.
pub proof fn law_a_factor_scales_both_sides(
    factor: Single,
    mantissa: nat,
    exponent: int,
    width: nat,
    height: nat,
    bound: nat,
)
    requires
        factor.scalar() == Scalar::Finite(mantissa, exponent),
        mantissa > 0,
        0 < width <= SINGLE,
        0 < height <= SINGLE,
        bound <= SINGLE,
    ensures
        ({
            let size = ResizeValue::Multiplier(factor).size(width, height);
            let (n, d) = (mantissa * up(exponent), down(exponent));
            &&& width * n >= bound * d ==> size.0 >= bound
            &&& width * n <= bound * d ==> size.0 <= bound
            &&& height * n >= bound * d ==> size.1 >= bound
            &&& height * n <= bound * d ==> size.1 <= bound
        }),
{
    reveal(ResizeValue::size);
    lemma_scaled(width, (mantissa, exponent), bound);
    lemma_scaled(height, (mantissa, exponent), bound);
}

proof fn lemma_percentage(length: nat, number: (nat, int), bound: nat)
    requires
        0 < length <= SINGLE,
        0 < number.0,
        bound <= SINGLE,
    ensures
        ({
            let result = scaled(length, hundredth(Scalar::Finite(number.0, number.1)));
            let (n, d) = (numerator(number), 100 * denominator(number));
            &&& (SINGLE - 1) * (length * n) >= SINGLE * (bound * d) ==> result >= bound
            &&& (SINGLE + 1) * (length * n) <= SINGLE * (bound * d) ==> result <= bound
        }),
{
    lemma_hundredth(number);
    if let Scalar::Finite(mantissa, exponent) = hundredth(Scalar::Finite(number.0, number.1)) {
        let value = (mantissa, exponent);
        lemma_scales_are_positive(exponent);
        lemma_scales_are_positive(number.1);
        let (nv, dv) = (numerator(value) as int, denominator(value) as int);
        let (l, k, x, y, s) = (
            length as int,
            bound as int,
            numerator(number) as int,
            100 * denominator(number) as int,
            SINGLE as int,
        );
        assert(s * y > 0) by (nonlinear_arith)
            requires
                s > 0,
                y > 0,
        ;
        if (s - 1) * (l * x) >= s * (k * y) {
            assert((k * dv) * (s * y) <= (l * nv) * (s * y)) by (nonlinear_arith)
                requires
                    (s - 1) * (l * x) >= s * (k * y),
                    s * (nv * y) >= (s - 1) * (x * dv),
                    l >= 0,
                    dv >= 1,
            ;
            lemma_mul_inequality_converse(k * dv, l * nv, s * y);
        }
        if (s + 1) * (l * x) <= s * (k * y) {
            assert((l * nv) * (s * y) <= (k * dv) * (s * y)) by (nonlinear_arith)
                requires
                    (s + 1) * (l * x) <= s * (k * y),
                    s * (nv * y) <= (s + 1) * (x * dv),
                    l >= 0,
                    dv >= 1,
            ;
            lemma_mul_inequality_converse(l * nv, k * dv, s * y);
        }
        lemma_scaled(length, value, bound);
    }
}

/// A percentage scales each side by its hundredth part, within one part in 2^24:
/// a side comes to every whole number that the exact length, taken less by as
/// much, comes to, and not past one that the exact length, taken more by as much,
/// does not come past.
pub proof fn law_a_percentage_scales_both_sides(
    percentage: Single,
    mantissa: nat,
    exponent: int,
    width: nat,
    height: nat,
    bound: nat,
)
    requires
        percentage.scalar() == Scalar::Finite(mantissa, exponent),
        mantissa > 0,
        0 < width <= SINGLE,
        0 < height <= SINGLE,
        bound <= SINGLE,
    ensures
        ({
            let size = ResizeValue::Percentage(percentage).size(width, height);
            let (n, d) = (mantissa * up(exponent), 100 * down(exponent));
            &&& (SINGLE - 1) * (width * n) >= SINGLE * (bound * d) ==> size.0 >= bound
            &&& (SINGLE + 1) * (width * n) <= SINGLE * (bound * d) ==> size.0 <= bound
            &&& (SINGLE - 1) * (height * n) >= SINGLE * (bound * d) ==> size.1 >= bound
            &&& (SINGLE + 1) * (height * n) <= SINGLE * (bound * d) ==> size.1 <= bound
        }),
{
    reveal(ResizeValue::size);
    lemma_percentage(width, (mantissa, exponent), bound);
    lemma_percentage(height, (mantissa, exponent), bound);
}

/// A whole number of hundreds makes an image exactly so many times as large, and
/// so does a whole factor: one, or a hundred per cent, leaves it as it is.
pub proof fn law_whole_multiples_are_exact(
    number: Single,
    mantissa: nat,
    exponent: int,
    times: nat,
    width: nat,
    height: nat,
)
    requires
        number.scalar() == Scalar::Finite(mantissa, exponent),
        0 < times <= SINGLE,
        0 < width <= SINGLE,
        0 < height <= SINGLE,
        width * times <= SINGLE,
        height * times <= SINGLE,
    ensures
        mantissa * up(exponent) == times * down(exponent) ==> ResizeValue::Multiplier(number).size(
            width,
            height,
        ) == ((width * times) as nat, (height * times) as nat),
        mantissa * up(exponent) == times * (100 * down(exponent)) ==> ResizeValue::Percentage(
            number,
        ).size(width, height) == ((width * times) as nat, (height * times) as nat),
{
    reveal(ResizeValue::size);
    lemma_scales_are_positive(exponent);
    let (n, d, t) = ((mantissa * up(exponent)) as int, down(exponent) as int, times as int);
    let (w, h) = (width as int, height as int);
    if n == t * d {
        assert(mantissa > 0) by (nonlinear_arith)
            requires
                mantissa * up(exponent) == t * d,
                t > 0,
                d >= 1,
        ;
        assert(w * n == (w * t) * d && h * n == (h * t) * d) by (nonlinear_arith)
            requires
                n == t * d,
        ;
        lemma_scaled(width, (mantissa, exponent), (w * t) as nat);
        lemma_scaled(height, (mantissa, exponent), (h * t) as nat);
    }
    if n == t * (100 * d) {
        assert(mantissa > 0) by (nonlinear_arith)
            requires
                mantissa * up(exponent) == t * (100 * d),
                t > 0,
                d >= 1,
        ;
        lemma_nearest_respects(mantissa, 100, exponent, HALF as nat, times);
        lemma_nearest_is_positive(mantissa, 100, exponent, HALF as nat);
        let value = nearest(mantissa, 100, exponent, SINGLE as nat);
        lemma_scales_are_positive(value.1);
        let (nv, dv) = (numerator(value) as int, denominator(value) as int);
        assert(nv == t * dv);
        assert(w * nv == (w * t) * dv && h * nv == (h * t) * dv) by (nonlinear_arith)
            requires
                nv == t * dv,
        ;
        lemma_scaled(width, value, (w * t) as nat);
        lemma_scaled(height, value, (h * t) as nat);
    }
}

/// A factor that is no number or below zero leaves nothing of an image, and an
/// infinite one goes to the largest length there is; a percentage does the same.
pub proof fn law_odd_factors_go_to_an_end(number: Single, width: nat, height: nat)
    requires
        width > 0,
        height > 0,
    ensures
        number.scalar() is Nan || number.scalar() is Negative ==> ResizeValue::Multiplier(
            number,
        ).size(width, height) == (0nat, 0nat) && ResizeValue::Percentage(number).size(width, height)
            == (0nat, 0nat),
        number.scalar() is Infinite ==> ResizeValue::Multiplier(number).size(width, height) == (
            usize::MAX as nat,
            usize::MAX as nat,
        ) && ResizeValue::Percentage(number).size(width, height) == (
            usize::MAX as nat,
            usize::MAX as nat,
        ),
{
    reveal(ResizeValue::size);
}

/// A factor or a percentage turns with the image, and what becomes of one side
/// does not depend on the other.
pub proof fn law_a_factor_turns_with_the_image(
    number: Single,
    width: nat,
    height: nat,
    other: nat,
)
    ensures
        ({
            let there = ResizeValue::Multiplier(number).size(width, height);
            &&& ResizeValue::Multiplier(number).size(height, width) == (there.1, there.0)
            &&& ResizeValue::Multiplier(number).size(width, other).0 == there.0
        }),
        ({
            let there = ResizeValue::Percentage(number).size(width, height);
            &&& ResizeValue::Percentage(number).size(height, width) == (there.1, there.0)
            &&& ResizeValue::Percentage(number).size(width, other).0 == there.0
        }),
{
    reveal(ResizeValue::size);
}

/// Whether a length differs from `side * other / anchor` by less than one, or is
/// one where that is less.
pub open spec fn is_in_ratio(length: nat, side: usize, other: nat, anchor: nat) -> bool {
    &&& length * anchor + anchor > side * other
    &&& length == 1 || length * anchor < side * other + anchor
}

/// A side value keeps the aspect ratio to less than a pixel, where the length
/// times the image's other side lies within what single precision holds exactly.
/// A side of less than a pixel counts as one.
pub proof fn law_a_side_value_keeps_the_ratio(side: usize, width: nat, height: nat)
    requires
        0 < side,
        0 < width <= SINGLE,
        0 < height <= SINGLE,
        side * width <= SINGLE,
        side * height <= SINGLE,
    ensures
        ({
            let longest = ResizeValue::LongestSide(side).size(width, height);
            let shortest = ResizeValue::ShortestSide(side).size(width, height);
            &&& width >= height ==> longest.0 == side && is_in_ratio(longest.1, side, height, width)
            &&& width < height ==> longest.1 == side && is_in_ratio(longest.0, side, width, height)
            &&& width <= height ==> shortest.0 == side && is_in_ratio(
                shortest.1,
                side,
                height,
                width,
            )
            &&& width > height ==> shortest.1 == side && is_in_ratio(
                shortest.0,
                side,
                width,
                height,
            )
        }),
{
    reveal(ResizeValue::size);
    law_the_derived_side_keeps_the_ratio(side as nat, width, height);
    law_the_derived_side_keeps_the_ratio(side as nat, height, width);
}

/// A number in units of the smallest one above zero, 2^-149.
pub open spec fn in_smallest_units(number: Scalar) -> nat {
    match number {
        Scalar::Finite(mantissa, exponent) => (mantissa * pow2((exponent + 149) as nat)) as nat,
        _ => 0,
    }
}

/// The bits of a number count it up from zero: the next bit pattern is the next
/// number, one unit further in the first 2^24 steps, and twice as far as before
/// after every 2^23 steps from there. What comes behind the last of them is
/// infinity, what comes behind that no number; the upper half of all patterns is
/// below zero, or no number either.
pub proof fn law_the_bits_count_up(number: Single, next: Single)
    ensures
        number.bits < 0x7f80_0000 ==> (number.scalar() matches Scalar::Finite(_, exponent)
            && exponent >= -149),
        number.bits == 0 ==> in_smallest_units(number.scalar()) == 0,
        next.bits == number.bits + 1 && next.bits < 0x7f80_0000 ==> in_smallest_units(next.scalar())
            == in_smallest_units(number.scalar()) + pow2(
            if number.bits < 0x80_0000 {
                0
            } else {
                (number.bits / 0x80_0000 - 1) as nat
            },
        ),
        number.scalar() is Infinite <==> number.bits == 0x7f80_0000,
        number.scalar() is Nan <==> 0x7f80_0000 < number.bits < 0x8000_0000 || number.bits
            > 0xff80_0000,
        number.scalar() is Negative <==> 0x8000_0000 <= number.bits <= 0xff80_0000,
{
    vstd::arithmetic::power2::lemma2_to64();
    let bits = number.bits;
    if bits == 0 {
        assert(number.scalar() == Scalar::Finite(0, -149));
        assert(pow2(0) == 1);
    }
    if next.bits == bits + 1 && next.bits < 0x7f80_0000 {
        let exponent = (bits / 0x80_0000) as int;
        let fraction = (bits % 0x80_0000) as int;
        assert(next.bits / 0x80_0000 == if fraction == 0x7f_ffff {
            exponent + 1
        } else {
            exponent
        });
        if fraction == 0x7f_ffff && exponent > 0 {
            let unit = pow2((exponent - 1) as nat) as int;
            vstd::arithmetic::power2::lemma_pow2_unfold(exponent as nat);
            assert(0x80_0000 * (2 * unit) == 0xff_ffff * unit + unit) by (nonlinear_arith);
        } else {
            let mantissa = if exponent == 0 {
                fraction
            } else {
                fraction + 0x80_0000
            };
            let unit = pow2(
                if exponent == 0 {
                    0
                } else {
                    (exponent - 1) as nat
                },
            ) as int;
            assert((mantissa + 1) * unit == mantissa * unit + unit) by (nonlinear_arith);
        }
    }
}

} // verus!
