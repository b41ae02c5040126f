//! What a side value does to an image: how exactly the length asked for is met.

use vstd::arithmetic::mul::{lemma_mul_equality_converse, lemma_mul_inequality_converse};
use vstd::prelude::*;

use crate::cli::resize::{derived_side, over, single_of, times, ResizeValue, HALF};
use crate::precision::{
    denominator, down, lemma_nearest_is_close, lemma_nearest_is_positive, lemma_nearest_respects,
    lemma_scales_add, lemma_scales_are_positive, lemma_whole_respects, numerator, up,
};
use crate::rounding::SINGLE;

verus! {

/// The longer of two sides.
pub open spec fn longer(size: (nat, nat)) -> nat {
    if size.0 >= size.1 {
        size.0
    } else {
        size.1
    }
}

/// The shorter of two sides.
pub open spec fn shorter(size: (nat, nat)) -> nat {
    if size.0 <= size.1 {
        size.0
    } else {
        size.1
    }
}

/// A small length is held exactly.
pub proof fn lemma_single_is_exact(length: nat)
    requires
        0 < length <= SINGLE,
    ensures
        numerator(single_of(length)) == length * denominator(single_of(length)),
{
    lemma_nearest_respects(length, 1, 0, HALF as nat, length);
    vstd::arithmetic::power2::lemma2_to64();
    let (scale, below) = (up(0) as int, (1 * down(0)) as int);
    assert(length * scale == length && length * below == length) by (nonlinear_arith)
        requires
            scale == 1,
            below == 1,
    ;
}

/// A length is held within one part in 2^24.
proof fn lemma_single_is_close(length: nat)
    requires
        0 < length,
    ensures
        ({
            let value = single_of(length);
            &&& SINGLE * numerator(value) <= (SINGLE + 1) * (length * denominator(value))
            &&& SINGLE * numerator(value) >= (SINGLE - 1) * (length * denominator(value))
        }),
{
    lemma_nearest_is_close(length, 1, 0, HALF as nat);
    vstd::arithmetic::power2::lemma2_to64();
    let value = single_of(length);
    let (scale, below) = (up(0) as int, (1 * down(0)) as int);
    let top = numerator(value) as int;
    assert(length * scale == length && top * below == top) by (nonlinear_arith)
        requires
            scale == 1,
            below == 1,
    ;
}

/// The fraction that a product rounds.
pub proof fn lemma_product(a: (nat, int), b: (nat, int))
    ensures
        ((a.0 * b.0) * up(a.1 + b.1)) * (denominator(a) * denominator(b)) == (numerator(a)
            * numerator(b)) * down(a.1 + b.1),
{
    lemma_scales_add(a.1, b.1);
    let (x, y) = (a.0 as int, b.0 as int);
    let (ua, ub, us) = (up(a.1) as int, up(b.1) as int, up(a.1 + b.1) as int);
    let (da, db, ds) = (down(a.1) as int, down(b.1) as int, down(a.1 + b.1) as int);
    assert(((x * y) * us) * (da * db) == (x * y) * (us * (da * db))) by (nonlinear_arith);
    assert(((x * ua) * (y * ub)) * ds == (x * y) * ((ua * ub) * ds)) by (nonlinear_arith);
}

/// The fraction that a quotient rounds.
pub proof fn lemma_quotient(a: (nat, int), b: (nat, int))
    ensures
        (a.0 * up(a.1 - b.1)) * (numerator(b) * denominator(a)) == (b.0 * down(a.1 - b.1)) * (
        numerator(a) * denominator(b)),
{
    lemma_scales_add(a.1 - b.1, b.1);
    assert(a.1 - b.1 + b.1 == a.1);
    let (x, y) = (a.0 as int, b.0 as int);
    let (ua, ub, us) = (up(a.1) as int, up(b.1) as int, up(a.1 - b.1) as int);
    let (da, db, ds) = (down(a.1) as int, down(b.1) as int, down(a.1 - b.1) as int);
    assert(ua * (ds * db) == (us * ub) * da);
    assert((x * us) * ((y * ub) * da) == (x * y) * ((us * ub) * da)) by (nonlinear_arith);
    assert((y * ds) * ((x * ua) * db) == (x * y) * (ua * (ds * db))) by (nonlinear_arith);
}

/// Where the exact product of two lengths lies within what single precision
/// holds, the derived side is the exact ratio, cut or rounded up to an integer.
proof fn lemma_derived_side(side: nat, anchor: nat, other: nat, bound: nat)
    requires
        0 < side,
        0 < other,
        0 < anchor <= SINGLE,
        side * other <= SINGLE,
        bound <= SINGLE,
        SINGLE <= usize::MAX,
    ensures
        side * other >= bound * anchor ==> derived_side(side, anchor, other) >= bound,
        side * other <= bound * anchor ==> derived_side(side, anchor, other) <= bound,
{
    let product = (side * other) as nat;
    assert(side <= product && other <= product) by (nonlinear_arith)
        requires
            product == side * other,
            side >= 1,
            other >= 1,
    ;
    let (a, b, c) = (single_of(side), single_of(other), single_of(anchor));
    lemma_single_is_exact(side);
    lemma_single_is_exact(other);
    lemma_single_is_exact(anchor);
    lemma_nearest_is_positive(side, 1, 0, HALF as nat);
    lemma_nearest_is_positive(other, 1, 0, HALF as nat);
    lemma_nearest_is_positive(anchor, 1, 0, HALF as nat);
    lemma_scales_are_positive(a.1);
    lemma_scales_are_positive(b.1);
    lemma_scales_are_positive(c.1);
    // The product.
    let n = (a.0 * b.0) as nat;
    assert(n > 0) by (nonlinear_arith)
        requires
            n == a.0 * b.0,
            a.0 > 0,
            b.0 > 0,
    ;
    let e = a.1 + b.1;
    lemma_product(a, b);
    let (da, db, ds) = (denominator(a) as int, denominator(b) as int, down(e) as int);
    assert(da * db > 0) by (nonlinear_arith)
        requires
            da >= 1,
            db >= 1,
    ;
    assert((da * db) * (n * up(e)) == (da * db) * (product * ds)) by {
        let exact = (n * up(e)) as int;
        assert(exact * (da * db) == ((side * da) * (other * db)) * ds);
        assert((da * db) * exact == exact * (da * db)) by (nonlinear_arith);
        let (x, y) = (side as int, other as int);
        assert(((x * da) * (y * db)) * ds == (da * db) * ((x * y) * ds)) by (nonlinear_arith);
    }
    lemma_mul_equality_converse(da * db, (n * up(e)) as int, product * ds);
    assert(product * (1 * down(e)) == product * ds);
    lemma_nearest_respects(n, 1, e, HALF as nat, product);
    let t = times(a, b);
    assert(numerator(t) == product * denominator(t));
    lemma_nearest_is_positive(n, 1, e, HALF as nat);
    lemma_scales_are_positive(t.1);
    // The quotient.
    let value = over(t, c);
    let f = t.1 - c.1;
    lemma_quotient(t, c);
    lemma_scales_are_positive(f);
    let (dt, dc, df) = (denominator(t) as int, denominator(c) as int, down(f) as int);
    let top = (t.0 * up(f)) as int;
    let bottom = (c.0 * down(f)) as int;
    assert(bottom > 0) by (nonlinear_arith)
        requires
            bottom == c.0 * df,
            c.0 > 0,
            df >= 1,
    ;
    assert(dt * dc > 0) by (nonlinear_arith)
        requires
            dt >= 1,
            dc >= 1,
    ;
    let (p, w) = (product as int, anchor as int);
    assert(top * w == p * bottom) by {
        assert(top * ((w * dc) * dt) == bottom * ((p * dt) * dc));
        assert(top * ((w * dc) * dt) == (dt * dc) * (top * w)) by (nonlinear_arith);
        assert(bottom * ((p * dt) * dc) == (dt * dc) * (p * bottom)) by (nonlinear_arith);
        lemma_mul_equality_converse(dt * dc, top * w, p * bottom);
    }
    let k = bound as int;
    if p >= k * w {
        assert(top * w >= (k * bottom) * w) by (nonlinear_arith)
            requires
                top * w == p * bottom,
                p >= k * w,
                bottom > 0,
        ;
        lemma_mul_inequality_converse(k * bottom, top, w);
    }
    if p <= k * w {
        assert(top * w <= (k * bottom) * w) by (nonlinear_arith)
            requires
                top * w == p * bottom,
                p <= k * w,
                bottom > 0,
        ;
        lemma_mul_inequality_converse(top, k * bottom, w);
        assert(k > 0) by (nonlinear_arith)
            requires
                0 < p <= k * w,
                w > 0,
        ;
    }
    lemma_nearest_respects(t.0, c.0, f, HALF as nat, bound);
    lemma_whole_respects(value, bound);
    lemma_scales_are_positive(value.1);
    let dv = denominator(value) as int;
    assert((k + 1) * dv == k * dv + dv) by (nonlinear_arith);
}

/// The derived side is no longer than the anchored one, where the image has
/// its longer side there.
proof fn lemma_derived_side_is_shorter(side: nat, anchor: nat, other: nat)
    requires
        0 < side < 0x40_0000,
        0 < other <= anchor,
    ensures
        derived_side(side, anchor, other) <= side,
{
    let (a, b, c) = (single_of(side), single_of(other), single_of(anchor));
    lemma_single_is_exact(side);
    lemma_single_is_close(other);
    lemma_single_is_close(anchor);
    lemma_nearest_is_positive(side, 1, 0, HALF as nat);
    lemma_nearest_is_positive(other, 1, 0, HALF as nat);
    lemma_nearest_is_positive(anchor, 1, 0, HALF as nat);
    lemma_scales_are_positive(a.1);
    lemma_scales_are_positive(b.1);
    lemma_scales_are_positive(c.1);
    let n = (a.0 * b.0) as nat;
    assert(n > 0) by (nonlinear_arith)
        requires
            n == a.0 * b.0,
            a.0 > 0,
            b.0 > 0,
    ;
    let t = times(a, b);
    let value = over(t, c);
    lemma_nearest_is_positive(n, 1, a.1 + b.1, HALF as nat);
    lemma_nearest_is_close(n, 1, a.1 + b.1, HALF as nat);
    lemma_nearest_is_close(t.0, c.0, t.1 - c.1, HALF as nat);
    lemma_product(a, b);
    lemma_quotient(t, c);
    lemma_scales_are_positive(t.1);
    lemma_scales_are_positive(value.1);
    lemma_scales_are_positive(a.1 + b.1);
    lemma_scales_are_positive(t.1 - c.1);
    let l = SINGLE as int;
    let (na, nb, nc) = (numerator(a) as int, numerator(b) as int, numerator(c) as int);
    let (da, db, dc) = (denominator(a) as int, denominator(b) as int, denominator(c) as int);
    let (nt, dt) = (numerator(t) as int, denominator(t) as int);
    let (nv, dv) = (numerator(value) as int, denominator(value) as int);
    let (s, o, w) = (side as int, other as int, anchor as int);
    assert(nc > 0) by (nonlinear_arith)
        requires
            nc == c.0 * up(c.1),
            c.0 > 0,
            up(c.1) >= 1,
    ;
    // What the product comes to.
    assert(l * (nt * (da * db)) <= (l + 1) * ((na * nb) * dt)) by {
        let e = a.1 + b.1;
        let exact = (n * up(e)) as int;
        let de = down(e) as int;
        assert(l * (nt * (1 * de)) <= (l + 1) * (exact * dt));
        assert(exact * (da * db) == (na * nb) * de);
        lemma_combine(l, l + 1, nt, de, exact, dt, da * db, na * nb);
    }
    // What the quotient comes to.
    assert(l * (nv * (nc * dt)) <= (l + 1) * ((nt * dc) * dv)) by {
        let f = t.1 - c.1;
        let exact = (t.0 * up(f)) as int;
        let df = (c.0 * down(f)) as int;
        assert(df > 0) by (nonlinear_arith)
            requires
                df == c.0 * down(f),
                c.0 > 0,
                down(f) >= 1,
        ;
        assert(l * (nv * df) <= (l + 1) * (exact * dv));
        assert(exact * (nc * dt) == df * (nt * dc));
        assert(df * (nt * dc) == (nt * dc) * df) by (nonlinear_arith);
        lemma_combine(l, l + 1, nv, df, exact, dv, nc * dt, nt * dc);
    }
    lemma_chain(s, o, w, na, da, nb, db, nc, dc, nt, dt, nv, dv);
    lemma_whole_respects(value, side);
}

/// Turns a bound on a rounded fraction into one over the fraction's parts.
proof fn lemma_combine(
    l: int,
    r: int,
    rounded: int,
    below: int,
    exact: int,
    under: int,
    scale: int,
    plain: int,
)
    requires
        below > 0,
        scale >= 0,
        l * (rounded * below) <= r * (exact * under),
        exact * scale == plain * below,
    ensures
        l * (rounded * scale) <= r * (plain * under),
{
    let (x, y) = (l * (rounded * below), r * (exact * under));
    assert(x * scale <= y * scale) by (nonlinear_arith)
        requires
            x <= y,
            scale >= 0,
    ;
    assert((l * (rounded * below)) * scale == (l * (rounded * scale)) * below) by (nonlinear_arith);
    assert((r * (exact * under)) * scale == (r * under) * (exact * scale)) by (nonlinear_arith);
    assert((r * under) * (plain * below) == (r * (plain * under)) * below) by (nonlinear_arith);
    lemma_mul_inequality_converse(l * (rounded * scale), r * (plain * under), below);
}

/// The errors of the four roundings together stay below one pixel.
proof fn lemma_chain(
    s: int,
    o: int,
    w: int,
    na: int,
    da: int,
    nb: int,
    db: int,
    nc: int,
    dc: int,
    nt: int,
    dt: int,
    nv: int,
    dv: int,
)
    requires
        0 < s < 0x40_0000,
        0 < o <= w,
        da >= 1,
        db >= 1,
        dc >= 1,
        dt >= 1,
        dv >= 1,
        nc >= 1,
        nv >= 0,
        na == s * da,
        SINGLE * nb <= (SINGLE + 1) * (o * db),
        SINGLE * nc >= (SINGLE - 1) * (w * dc),
        SINGLE * (nt * (da * db)) <= (SINGLE + 1) * ((na * nb) * dt),
        SINGLE * (nv * (nc * dt)) <= (SINGLE + 1) * ((nt * dc) * dv),
    ensures
        nv < (s + 1) * dv,
{
    let l: int = SINGLE as int;
    let r: int = l + 1;
    // The product, with the exact side put in.
    assert(l * (nt * db) <= r * ((s * nb) * dt)) by {
        assert(l * (nt * (da * db)) == (l * (nt * db)) * da) by (nonlinear_arith);
        assert(r * (((s * da) * nb) * dt) == (r * ((s * nb) * dt)) * da) by (nonlinear_arith);
        lemma_mul_inequality_converse(l * (nt * db), r * ((s * nb) * dt), da);
    }
    // The other side put in.
    let twice = l * l;
    assert(twice * nt <= (r * r) * ((s * o) * dt)) by {
        let (x, y) = (l * (nt * db), r * ((s * nb) * dt));
        assert(l * x <= l * y) by (nonlinear_arith)
            requires
                x <= y,
                l > 0,
        ;
        assert(l * (l * (nt * db)) == (twice * nt) * db) by (nonlinear_arith)
            requires
                twice == l * l,
        ;
        assert(l * (r * ((s * nb) * dt)) == (r * (s * dt)) * (l * nb)) by (nonlinear_arith);
        let rest = r * (s * dt);
        assert(rest >= 0) by (nonlinear_arith)
            requires
                rest == r * (s * dt),
                r > 0,
                s > 0,
                dt >= 1,
        {
            assert(s * dt > 0);
        }
        let (low, high) = (l * nb, r * (o * db));
        assert(rest * low <= rest * high) by (nonlinear_arith)
            requires
                low <= high,
                rest >= 0,
        ;
        assert((r * (s * dt)) * (r * (o * db)) == ((r * r) * ((s * o) * dt)) * db)
            by (nonlinear_arith);
        lemma_mul_inequality_converse(twice * nt, (r * r) * ((s * o) * dt), db);
    }
    // The product put into the quotient.
    let thrice = twice * l;
    assert(thrice * (nv * nc) <= (r * r * r) * ((s * o) * (dc * dv))) by {
        let (x, y) = (l * (nv * (nc * dt)), r * ((nt * dc) * dv));
        assert(twice > 0) by (nonlinear_arith)
            requires
                twice == l * l,
                l > 0,
        ;
        assert(twice * x <= twice * y) by (nonlinear_arith)
            requires
                x <= y,
                twice > 0,
        ;
        assert(twice * (l * (nv * (nc * dt))) == (thrice * (nv * nc)) * dt) by (nonlinear_arith)
            requires
                thrice == twice * l,
        ;
        assert(twice * (r * ((nt * dc) * dv)) == (r * (dc * dv)) * (twice * nt))
            by (nonlinear_arith);
        let rest = r * (dc * dv);
        assert(rest >= 0) by (nonlinear_arith)
            requires
                rest == r * (dc * dv),
                r > 0,
                dc >= 1,
                dv >= 1,
        {
            assert(dc * dv > 0);
        }
        let (low, high) = (twice * nt, (r * r) * ((s * o) * dt));
        assert(rest * low <= rest * high) by (nonlinear_arith)
            requires
                low <= high,
                rest >= 0,
        ;
        assert((r * (dc * dv)) * ((r * r) * ((s * o) * dt)) == ((r * r * r) * ((s * o) * (dc * dv)))
            * dt) by (nonlinear_arith);
        lemma_mul_inequality_converse(
            thrice * (nv * nc),
            (r * r * r) * ((s * o) * (dc * dv)),
            dt,
        );
    }
    // The anchor put in.
    let cube = r * r * r;
    assert((twice * (l - 1)) * (nv * w) <= cube * ((s * o) * dv)) by {
        let (low, high) = ((l - 1) * (w * dc), l * nc);
        let rest = twice * nv;
        assert(rest >= 0) by (nonlinear_arith)
            requires
                rest == twice * nv,
                twice == l * l,
                nv >= 0,
        ;
        assert(rest * low <= rest * high) by (nonlinear_arith)
            requires
                low <= high,
                rest >= 0,
        ;
        assert((twice * nv) * ((l - 1) * (w * dc)) == ((twice * (l - 1)) * (nv * w)) * dc)
            by (nonlinear_arith);
        assert((twice * nv) * (l * nc) == thrice * (nv * nc)) by (nonlinear_arith)
            requires
                thrice == twice * l,
        ;
        assert(cube * ((s * o) * (dc * dv)) == (cube * ((s * o) * dv)) * dc) by (nonlinear_arith);
        lemma_mul_inequality_converse(
            (twice * (l - 1)) * (nv * w),
            cube * ((s * o) * dv),
            dc,
        );
    }
    // The other side is no longer than the anchor.
    let less = twice * (l - 1);
    assert(less * nv <= cube * (s * dv)) by {
        assert(cube > 0) by (nonlinear_arith)
            requires
                cube == r * r * r,
                r > 0,
        ;
        let plain = cube * (s * dv);
        assert(plain >= 0) by (nonlinear_arith)
            requires
                plain == cube * (s * dv),
                cube > 0,
                s > 0,
                dv >= 1,
        {
            assert(s * dv > 0);
        }
        assert(cube * ((s * o) * dv) == plain * o) by (nonlinear_arith)
            requires
                plain == cube * (s * dv),
        ;
        assert(plain * o <= plain * w) by (nonlinear_arith)
            requires
                o <= w,
                plain >= 0,
        ;
        assert(less * (nv * w) == (less * nv) * w) by (nonlinear_arith);
        lemma_mul_inequality_converse(less * nv, plain, w);
    }
    if nv >= (s + 1) * dv {
        assert(twice == 0x1_0000_0000_0000);
        assert(less == 0x1_0000_0000_0000 * 0xff_ffff);
        assert(cube == 0x100_0001 * 0x100_0001 * 0x100_0001);
        assert((less * (s + 1)) * dv <= (cube * s) * dv) by {
            let floor = (s + 1) * dv;
            assert(less * floor <= less * nv) by (nonlinear_arith)
                requires
                    floor <= nv,
                    less > 0,
            ;
            assert(less * ((s + 1) * dv) == (less * (s + 1)) * dv) by (nonlinear_arith);
            assert(cube * (s * dv) == (cube * s) * dv) by (nonlinear_arith);
        }
        lemma_mul_inequality_converse(less * (s + 1), cube * s, dv);
        assert(false);
    }
}

/// The derived side is no shorter than the anchored one, where the image's side
/// there exceeds the anchored one by as much as the roundings can take away.
proof fn lemma_derived_side_is_longer(side: nat, anchor: nat, other: nat)
    requires
        0 < side <= SINGLE,
        side <= usize::MAX,
        0 < anchor < other,
        anchor * SINGLE <= other * (SINGLE - 4),
    ensures
        derived_side(side, anchor, other) >= side,
{
    let (a, b, c) = (single_of(side), single_of(other), single_of(anchor));
    lemma_single_is_exact(side);
    lemma_single_is_close(other);
    lemma_single_is_close(anchor);
    lemma_nearest_is_positive(side, 1, 0, HALF as nat);
    lemma_nearest_is_positive(other, 1, 0, HALF as nat);
    lemma_nearest_is_positive(anchor, 1, 0, HALF as nat);
    lemma_scales_are_positive(a.1);
    lemma_scales_are_positive(b.1);
    lemma_scales_are_positive(c.1);
    let n = (a.0 * b.0) as nat;
    assert(n > 0) by (nonlinear_arith)
        requires
            n == a.0 * b.0,
            a.0 > 0,
            b.0 > 0,
    ;
    let t = times(a, b);
    let value = over(t, c);
    lemma_nearest_is_positive(n, 1, a.1 + b.1, HALF as nat);
    lemma_nearest_is_close(n, 1, a.1 + b.1, HALF as nat);
    lemma_nearest_is_close(t.0, c.0, t.1 - c.1, HALF as nat);
    lemma_product(a, b);
    lemma_quotient(t, c);
    lemma_scales_are_positive(t.1);
    lemma_scales_are_positive(value.1);
    lemma_scales_are_positive(a.1 + b.1);
    lemma_scales_are_positive(t.1 - c.1);
    let l = SINGLE as int;
    let (na, nb, nc) = (numerator(a) as int, numerator(b) as int, numerator(c) as int);
    let (da, db, dc) = (denominator(a) as int, denominator(b) as int, denominator(c) as int);
    let (nt, dt) = (numerator(t) as int, denominator(t) as int);
    let (nv, dv) = (numerator(value) as int, denominator(value) as int);
    let (s, o, w) = (side as int, other as int, anchor as int);
    assert(nc > 0) by (nonlinear_arith)
        requires
            nc == c.0 * up(c.1),
            c.0 > 0,
            up(c.1) >= 1,
    ;
    // What the product comes to.
    assert((l - 1) * ((na * nb) * dt) <= l * (nt * (da * db))) by {
        let e = a.1 + b.1;
        let exact = (n * up(e)) as int;
        let de = down(e) as int;
        assert((l - 1) * (exact * dt) <= l * (nt * (1 * de)));
        assert(exact * (da * db) == (na * nb) * de);
        lemma_combine_below(l, l - 1, nt, de, exact, dt, da * db, na * nb);
    }
    // What the quotient comes to.
    assert((l - 1) * ((nt * dc) * dv) <= l * (nv * (nc * dt))) by {
        let f = t.1 - c.1;
        let exact = (t.0 * up(f)) as int;
        let df = (c.0 * down(f)) as int;
        assert(df > 0) by (nonlinear_arith)
            requires
                df == c.0 * down(f),
                c.0 > 0,
                down(f) >= 1,
        ;
        assert((l - 1) * (exact * dv) <= l * (nv * df));
        assert(exact * (nc * dt) == df * (nt * dc));
        assert(df * (nt * dc) == (nt * dc) * df) by (nonlinear_arith);
        lemma_combine_below(l, l - 1, nv, df, exact, dv, nc * dt, nt * dc);
    }
    lemma_chain_below(s, o, w, na, da, nb, db, nc, dc, nt, dt, nv, dv);
    lemma_whole_respects(value, side);
}

/// Turns a bound from below on a rounded fraction into one over the fraction's
/// parts.
proof fn lemma_combine_below(
    l: int,
    m: int,
    rounded: int,
    below: int,
    exact: int,
    under: int,
    scale: int,
    plain: int,
)
    requires
        below > 0,
        scale >= 0,
        m * (exact * under) <= l * (rounded * below),
        exact * scale == plain * below,
    ensures
        m * (plain * under) <= l * (rounded * scale),
{
    let (x, y) = (m * (exact * under), l * (rounded * below));
    assert(x * scale <= y * scale) by (nonlinear_arith)
        requires
            x <= y,
            scale >= 0,
    ;
    assert((l * (rounded * below)) * scale == (l * (rounded * scale)) * below) by (nonlinear_arith);
    assert((m * (exact * under)) * scale == (m * under) * (exact * scale)) by (nonlinear_arith);
    assert((m * under) * (plain * below) == (m * (plain * under)) * below) by (nonlinear_arith);
    lemma_mul_inequality_converse(m * (plain * under), l * (rounded * scale), below);
}

/// The errors of the four roundings together take away no more than the other
/// side has in excess.
proof fn lemma_chain_below(
    s: int,
    o: int,
    w: int,
    na: int,
    da: int,
    nb: int,
    db: int,
    nc: int,
    dc: int,
    nt: int,
    dt: int,
    nv: int,
    dv: int,
)
    requires
        0 < s,
        0 < w < o,
        w * SINGLE <= o * (SINGLE - 4),
        da >= 1,
        db >= 1,
        dc >= 1,
        dt >= 1,
        dv >= 1,
        nc >= 1,
        nv >= 0,
        na == s * da,
        (SINGLE - 1) * (o * db) <= SINGLE * nb,
        SINGLE * nc <= (SINGLE + 1) * (w * dc),
        (SINGLE - 1) * ((na * nb) * dt) <= SINGLE * (nt * (da * db)),
        (SINGLE - 1) * ((nt * dc) * dv) <= SINGLE * (nv * (nc * dt)),
    ensures
        nv >= s * dv,
{
    let l: int = SINGLE as int;
    let m: int = l - 1;
    let r: int = l + 1;
    // The product, with the exact side put in.
    assert(m * ((s * nb) * dt) <= l * (nt * db)) by {
        assert(l * (nt * (da * db)) == (l * (nt * db)) * da) by (nonlinear_arith);
        assert(m * (((s * da) * nb) * dt) == (m * ((s * nb) * dt)) * da) by (nonlinear_arith);
        lemma_mul_inequality_converse(m * ((s * nb) * dt), l * (nt * db), da);
    }
    // The other side put in.
    let twice = l * l;
    assert((m * m) * ((s * o) * dt) <= twice * nt) by {
        let (x, y) = (m * ((s * nb) * dt), l * (nt * db));
        assert(l * x <= l * y) by (nonlinear_arith)
            requires
                x <= y,
                l > 0,
        ;
        assert(l * (l * (nt * db)) == (twice * nt) * db) by (nonlinear_arith)
            requires
                twice == l * l,
        ;
        assert(l * (m * ((s * nb) * dt)) == (m * (s * dt)) * (l * nb)) by (nonlinear_arith);
        let rest = m * (s * dt);
        assert(rest >= 0) by (nonlinear_arith)
            requires
                rest == m * (s * dt),
                m > 0,
                s > 0,
                dt >= 1,
        {
            assert(s * dt > 0);
        }
        let (low, high) = (m * (o * db), l * nb);
        assert(rest * low <= rest * high) by (nonlinear_arith)
            requires
                low <= high,
                rest >= 0,
        ;
        assert((m * (s * dt)) * (m * (o * db)) == ((m * m) * ((s * o) * dt)) * db)
            by (nonlinear_arith);
        lemma_mul_inequality_converse((m * m) * ((s * o) * dt), twice * nt, db);
    }
    // The product put into the quotient.
    let thrice = twice * l;
    assert((m * m * m) * ((s * o) * (dc * dv)) <= thrice * (nv * nc)) by {
        let (x, y) = (m * ((nt * dc) * dv), l * (nv * (nc * dt)));
        assert(twice > 0) by (nonlinear_arith)
            requires
                twice == l * l,
                l > 0,
        ;
        assert(twice * x <= twice * y) by (nonlinear_arith)
            requires
                x <= y,
                twice > 0,
        ;
        assert(twice * (l * (nv * (nc * dt))) == (thrice * (nv * nc)) * dt) by (nonlinear_arith)
            requires
                thrice == twice * l,
        ;
        assert(twice * (m * ((nt * dc) * dv)) == (m * (dc * dv)) * (twice * nt))
            by (nonlinear_arith);
        let rest = m * (dc * dv);
        assert(rest >= 0) by (nonlinear_arith)
            requires
                rest == m * (dc * dv),
                m > 0,
                dc >= 1,
                dv >= 1,
        {
            assert(dc * dv > 0);
        }
        let (low, high) = ((m * m) * ((s * o) * dt), twice * nt);
        assert(rest * low <= rest * high) by (nonlinear_arith)
            requires
                low <= high,
                rest >= 0,
        ;
        assert((m * (dc * dv)) * ((m * m) * ((s * o) * dt)) == ((m * m * m) * ((s * o) * (dc * dv)))
            * dt) by (nonlinear_arith);
        lemma_mul_inequality_converse(
            (m * m * m) * ((s * o) * (dc * dv)),
            thrice * (nv * nc),
            dt,
        );
    }
    // The anchor put in.
    let cube = m * m * m;
    let over = twice * r;
    assert(cube * ((s * o) * dv) <= over * (nv * w)) by {
        let (low, high) = (l * nc, r * (w * dc));
        let rest = twice * nv;
        assert(rest >= 0) by (nonlinear_arith)
            requires
                rest == twice * nv,
                twice == l * l,
                nv >= 0,
        ;
        assert(rest * low <= rest * high) by (nonlinear_arith)
            requires
                low <= high,
                rest >= 0,
        ;
        assert((twice * nv) * (l * nc) == thrice * (nv * nc)) by (nonlinear_arith)
            requires
                thrice == twice * l,
        ;
        assert((twice * nv) * (r * (w * dc)) == (over * (nv * w)) * dc) by (nonlinear_arith)
            requires
                over == twice * r,
        ;
        assert(cube * ((s * o) * (dc * dv)) == (cube * ((s * o) * dv)) * dc) by (nonlinear_arith);
        lemma_mul_inequality_converse(cube * ((s * o) * dv), over * (nv * w), dc);
    }
    // The other side exceeds the anchor.
    assert(over * w <= cube * o) by {
        let part = l * r;
        let (low, high) = (w * l, o * (l - 4));
        assert(part * low <= part * high) by (nonlinear_arith)
            requires
                low <= high,
                part == l * r,
                l > 0,
                r > 0,
        ;
        assert((l * r) * (w * l) == ((l * l) * r) * w) by (nonlinear_arith);
        assert((l * r) * (o * (l - 4)) == ((l * r) * (l - 4)) * o) by (nonlinear_arith);
        assert((l * r) * (l - 4) <= cube) by {
            assert(l == 0x100_0000);
            assert(cube == 0xff_ffff * 0xff_ffff * 0xff_ffff);
            assert((l * r) * (l - 4) == 0x100_0000 * 0x100_0001 * 0xff_fffc);
        }
        let (small, large) = ((l * r) * (l - 4), cube);
        assert(small * o <= large * o) by (nonlinear_arith)
            requires
                small <= large,
                o > 0,
        ;
    }
    assert((over * w) * (s * dv) <= (over * w) * nv) by {
        let rest = s * dv;
        assert(rest > 0) by (nonlinear_arith)
            requires
                rest == s * dv,
                s > 0,
                dv >= 1,
        ;
        let (low, high) = (over * w, cube * o);
        assert(low * rest <= high * rest) by (nonlinear_arith)
            requires
                low <= high,
                rest > 0,
        ;
        assert((cube * o) * (s * dv) == cube * ((s * o) * dv)) by (nonlinear_arith);
        assert(over * (nv * w) == (over * w) * nv) by (nonlinear_arith);
    }
    let scale = over * w;
    assert(scale > 0) by (nonlinear_arith)
        requires
            scale == over * w,
            over == (l * l) * r,
            l > 0,
            r > 0,
            w > 0,
    {
        assert(l * l > 0);
        assert((l * l) * r > 0);
    }
    assert(scale * (s * dv) == (s * dv) * scale && scale * nv == nv * scale) by (nonlinear_arith);
    lemma_mul_inequality_converse(s * dv, nv, scale);
}

/// A longest-side value makes the longer side exactly as long as asked for, for
/// lengths below 2^22: rounding never carries the derived side past it.
pub proof fn law_a_longest_side_is_met(side: usize, width: nat, height: nat)
    requires
        0 < side < 0x40_0000,
        width > 0,
        height > 0,
    ensures
        longer(ResizeValue::LongestSide(side).size(width, height)) == side,
{
    reveal(ResizeValue::size);
    if width >= height {
        lemma_derived_side_is_shorter(side as nat, width, height);
    } else {
        lemma_derived_side_is_shorter(side as nat, height, width);
    }
}

/// A shortest-side value makes the shorter side exactly as long as asked for:
/// where the length times the image's longer side lies within what single
/// precision holds exactly, and for every length up to 2^24 where the image's
/// longer side exceeds the shorter one by at least its 2^22nd part, as it does in
/// every image that is not square and no longer than 2^22.
pub proof fn law_a_shortest_side_is_met(side: usize, width: nat, height: nat)
    requires
        side > 0,
        width > 0,
        height > 0,
        side * longer((width, height)) <= SINGLE || (side <= SINGLE && longer((width, height)) <= (
        longer((width, height)) - shorter((width, height))) * 0x40_0000),
    ensures
        shorter(ResizeValue::ShortestSide(side).size(width, height)) == side,
{
    reveal(ResizeValue::size);
    let (anchor, other) = (shorter((width, height)), longer((width, height)));
    if side * other <= SINGLE {
        assert(side <= side * other && other <= side * other) by (nonlinear_arith)
            requires
                side >= 1,
                other >= 1,
        ;
        assert(side * other >= side * anchor) by (nonlinear_arith)
            requires
                other >= anchor,
        ;
        lemma_derived_side(side as nat, anchor, other, side as nat);
    } else {
        lemma_derived_side_is_longer(side as nat, anchor, other);
    }
}

/// A side value leaves an image alone that already has the side asked for,
/// where its area lies within what single precision holds exactly.
pub proof fn law_a_side_value_keeps_an_image_that_fits(width: usize, height: usize)
    requires
        width > 0,
        height > 0,
        width * height <= SINGLE,
    ensures
        width >= height ==> ResizeValue::LongestSide(width).size(width as nat, height as nat) == (
            width as nat,
            height as nat,
        ),
        height >= width ==> ResizeValue::LongestSide(height).size(width as nat, height as nat) == (
            width as nat,
            height as nat,
        ),
        width <= height ==> ResizeValue::ShortestSide(width).size(width as nat, height as nat) == (
            width as nat,
            height as nat,
        ),
        height <= width ==> ResizeValue::ShortestSide(height).size(width as nat, height as nat)
            == (width as nat, height as nat),
{
    reveal(ResizeValue::size);
    let (w, h) = (width as nat, height as nat);
    assert(w <= w * h && h <= w * h && w * h == h * w) by (nonlinear_arith)
        requires
            w >= 1,
            h >= 1,
    ;
    lemma_derived_side(w, w, h, h);
    lemma_derived_side(h, h, w, w);
}

/// The side that follows keeps the aspect ratio to less than a pixel, where the
/// length times the image's other side lies within what single precision holds
/// exactly. A side of less than a pixel counts as one.
pub proof fn law_the_derived_side_keeps_the_ratio(side: nat, anchor: nat, other: nat)
    requires
        0 < side,
        0 < other,
        0 < anchor <= SINGLE,
        side * other <= SINGLE,
    ensures
        ({
            let derived = derived_side(side, anchor, other);
            &&& derived * anchor > side * other - anchor
            &&& derived == 1 || derived * anchor < side * other + anchor
        }),
{
    let product = (side * other) as nat;
    let quotient = product / anchor;
    vstd::arithmetic::div_mod::lemma_fundamental_div_mod(product as int, anchor as int);
    let (p, q, w) = (product as int, quotient as int, anchor as int);
    let rest = p % w;
    assert(w * q == q * w) by (nonlinear_arith);
    assert((q + 1) * w == q * w + w) by (nonlinear_arith);
    assert(q <= p) by (nonlinear_arith)
        requires
            p == w * q + rest,
            rest >= 0,
            w >= 1,
            q >= 0,
    ;
    lemma_derived_side(side, anchor, other, quotient);
    let derived = derived_side(side, anchor, other) as int;
    assert(derived * w >= q * w) by (nonlinear_arith)
        requires
            derived >= q,
            w > 0,
    ;
    if rest == 0 {
        assert(derived == q || derived == 1);
    } else {
        assert(q + 1 <= p) by (nonlinear_arith)
            requires
                p == w * q + rest,
                rest >= 1,
                w >= 1,
                q >= 0,
        ;
        lemma_derived_side(side, anchor, other, (quotient + 1) as nat);
        assert(derived * w <= (q + 1) * w) by (nonlinear_arith)
            requires
                derived <= q + 1,
                w > 0,
        ;
    }
}

} // verus!
