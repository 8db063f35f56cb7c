//! That the arithmetic on doubles rounds as it should, stated without saying
//! how it is done.

use vstd::arithmetic::power2::{lemma_pow2_pos, lemma_pow2_unfold, pow2};
use vstd::prelude::*;

use crate::double::{column, distance, half_even, nearest, saturated, size_text, tenths, DoubleView};
use crate::text::{decimal, digit_char};

verus! {

/// The distance of two numbers.
pub open spec fn apart(a: int, b: int) -> int {
    if a < b {
        b - a
    } else {
        a - b
    }
}

/// The integer `q` is as near to `n / d` as any, and even if another is as
/// near.
pub open spec fn is_nearest_integer(q: int, n: int, d: int) -> bool {
    &&& 2 * apart(q * d, n) <= d
    &&& 2 * apart(q * d, n) == d ==> q % 2 == 0
}

/// Rounding to an integer gives the nearest, and the even one of two.
pub proof fn law_rounds_to_nearest_integer(n: nat, d: nat)
    requires
        d > 0,
    ensures
        is_nearest_integer(half_even(n, d) as int, n as int, d as int),
{
    let q = n / d;
    let r = n % d;
    assert(n == q * d + r && 0 <= r < d) by {
        vstd::arithmetic::div_mod::lemma_fundamental_div_mod(n as int, d as int);
        assert(d * q == q * d) by (nonlinear_arith);
    }
    assert((q + 1) * d == q * d + d) by (nonlinear_arith);
}

/// What the exponent multiplies by, where it is not negative.
pub open spec fn up(e: int) -> int {
    if e >= 0 {
        pow2(e as nat) as int
    } else {
        1
    }
}

/// What the exponent divides by, where it is negative.
pub open spec fn down(e: int) -> int {
    if e < 0 {
        pow2((-e) as nat) as int
    } else {
        1
    }
}

/// The number `m * 2^e` with a significand `m` of 53 bits is as near to `n / d`
/// as any of its neighbours, and `m` is even if one of them is as near.
pub open spec fn is_rounded(m: int, e: int, n: int, d: int) -> bool {
    &&& 0x10_0000_0000_0000 <= m < 0x20_0000_0000_0000
    &&& 2 * apart(m * up(e) * d, n * down(e)) <= up(e) * d
    &&& 2 * apart(m * up(e) * d, n * down(e)) == up(e) * d ==> m % 2 == 0
}

proof fn lemma_halved(m: int, e: int, n: int, d: int)
    requires
        is_rounded(m, e, 2 * n, d),
        d > 0,
    ensures
        is_rounded(m, e - 1, n, d),
{
    if e <= 0 {
        lemma_pow2_unfold((1 - e) as nat);
        lemma_pow2_unfold(1);
        vstd::arithmetic::power2::lemma2_to64();
        assert(down(e - 1) == 2 * down(e));
        assert(n * (2 * down(e)) == (2 * n) * down(e)) by (nonlinear_arith);
    } else {
        lemma_pow2_unfold(e as nat);
        vstd::arithmetic::power2::lemma2_to64();
        let u = up(e - 1);
        assert(up(e) == 2 * u);
        assert(m * (2 * u) * d == 2 * (m * u * d)) by (nonlinear_arith);
        assert((2 * u) * d == 2 * (u * d)) by (nonlinear_arith);
    }
}

proof fn lemma_doubled(m: int, e: int, n: int, d: int)
    requires
        is_rounded(m, e, n, 2 * d),
        d > 0,
    ensures
        is_rounded(m, e + 1, n, d),
{
    if e >= 0 {
        lemma_pow2_unfold((e + 1) as nat);
        let u = up(e);
        assert(up(e + 1) == 2 * u);
        assert(m * (2 * u) * d == m * u * (2 * d)) by (nonlinear_arith);
        assert((2 * u) * d == u * (2 * d)) by (nonlinear_arith);
    } else {
        lemma_pow2_unfold((-e) as nat);
        vstd::arithmetic::power2::lemma2_to64();
        let w = down(e + 1);
        assert(down(e) == 2 * w);
        assert(n * (2 * w) == 2 * (n * w)) by (nonlinear_arith);
        assert(m * 1 * (2 * d) == 2 * (m * 1 * d)) by (nonlinear_arith);
    }
}

/// A positive quotient is rounded to the nearest double.
pub proof fn law_rounds_to_nearest_double(n: nat, d: nat)
    requires
        n > 0,
        d > 0,
    ensures
        is_rounded(
            nearest(n, d).significand as int,
            nearest(n, d).exponent,
            n as int,
            d as int,
        ),
    decreases distance(n, d),
{
    let r = nearest(n, d);
    if n < d * 0x10_0000_0000_0000 {
        law_rounds_to_nearest_double(2 * n, d);
        lemma_halved(r.significand as int, r.exponent + 1, n as int, d as int);
    } else if n >= d * 0x20_0000_0000_0000 {
        law_rounds_to_nearest_double(n, 2 * d);
        lemma_doubled(r.significand as int, r.exponent - 1, n as int, d as int);
    } else {
        law_rounds_to_nearest_integer(n, d);
        let q = half_even(n, d) as int;
        vstd::arithmetic::power2::lemma2_to64();
        assert(0x10_0000_0000_0000 <= n / d < 0x20_0000_0000_0000) by (nonlinear_arith)
            requires
                d * 0x10_0000_0000_0000 <= n < d * 0x20_0000_0000_0000,
                d > 0,
        ;
        if q == 0x20_0000_0000_0000 {
            assert(r.significand == 0x10_0000_0000_0000 && r.exponent == 1);
            assert(up(1) == 2);
            assert(0x10_0000_0000_0000 * 2 * d as int == q * d);
        } else {
            assert(up(0) == 1);
            assert(q * 1 * d as int == q * d);
        }
    }
}

/// Nothing but zero is rounded to zero.
pub proof fn law_zero_stays_zero(d: nat)
    ensures
        nearest(0, d).significand == 0,
{
}

/// The number `r` is the double nearest to the exact product of `a` and `b`.
pub open spec fn is_product(r: DoubleView, a: DoubleView, b: DoubleView) -> bool {
    is_rounded(
        r.significand as int,
        r.exponent - a.exponent - b.exponent,
        a.significand as int * b.significand as int,
        1,
    )
}

/// The number `r` is the double nearest to the exact quotient of `a` and `b`.
pub open spec fn is_quotient(r: DoubleView, a: DoubleView, b: DoubleView) -> bool {
    is_rounded(
        r.significand as int,
        r.exponent - a.exponent + b.exponent,
        a.significand as int,
        b.significand as int,
    )
}

/// A product is the double nearest to the exact one, and a quotient too.
pub proof fn law_products_and_quotients_are_rounded(a: DoubleView, b: DoubleView)
    requires
        a.significand > 0,
        b.significand > 0,
    ensures
        is_product(a.times(b), a, b),
        is_quotient(a.over(b), a, b),
{
    assert(a.significand * b.significand > 0) by (nonlinear_arith)
        requires
            a.significand > 0,
            b.significand > 0,
    ;
    law_rounds_to_nearest_double(a.significand * b.significand, 1);
    law_rounds_to_nearest_double(a.significand, b.significand);
}

/// The number is not below the integer `c`.
pub open spec fn at_least(x: DoubleView, c: int) -> bool {
    x.significand * up(x.exponent) >= c * down(x.exponent)
}

/// The number is above the integer `c`.
pub open spec fn above(x: DoubleView, c: int) -> bool {
    x.significand * up(x.exponent) > c * down(x.exponent)
}

/// The floor of a number reaches an integer if and only if the number does,
/// and the ceiling goes above one if and only if the number does.
pub proof fn law_floor_and_ceiling(x: DoubleView, c: int)
    ensures
        x.floor() >= c <==> at_least(x, c),
        x.ceil() > c <==> above(x, c),
{
    if x.exponent < 0 {
        let p = pow2((-x.exponent) as nat) as int;
        let m = x.significand as int;
        lemma_pow2_pos((-x.exponent) as nat);
        assert(m / p >= c <==> m >= c * p) by (nonlinear_arith)
            requires
                p > 0,
        ;
        assert((m + p - 1) / p > c <==> m > c * p) by (nonlinear_arith)
            requires
                p > 0,
        ;
    }
}

/// A number that is too large becomes the largest, and every other stays.
pub proof fn law_saturation(x: nat)
    ensures
        x <= u64::MAX ==> saturated(x) == x,
        x > u64::MAX ==> saturated(x) == u64::MAX,
{
}

/// The column of an offset is what four operations on doubles make of it, each
/// rounded for itself: the share of the disk, times a hundred, over a hundred,
/// times the width.
pub proof fn law_column_is_share_of_width(x: u64, disk_length: u64, width: u64) -> (v: Seq<
    DoubleView,
>)
    requires
        x > 0,
        disk_length > 0,
        width > 0,
    ensures
        v.len() == 8,
        is_rounded(v[0].significand as int, v[0].exponent, x as int, 1),
        is_rounded(v[1].significand as int, v[1].exponent, disk_length as int, 1),
        is_rounded(v[2].significand as int, v[2].exponent, width as int, 1),
        is_rounded(v[3].significand as int, v[3].exponent, 100, 1),
        is_quotient(v[4], v[0], v[1]),
        is_product(v[5], v[4], v[3]),
        is_quotient(v[6], v[5], v[3]),
        is_product(v[7], v[6], v[2]),
        column(x, disk_length, width) == v[7],
{
    let a = nearest(x as nat, 1);
    let b = nearest(disk_length as nat, 1);
    let w = nearest(width as nat, 1);
    let h = nearest(100, 1);
    law_rounds_to_nearest_double(x as nat, 1);
    law_rounds_to_nearest_double(disk_length as nat, 1);
    law_rounds_to_nearest_double(width as nat, 1);
    law_rounds_to_nearest_double(100, 1);
    law_products_and_quotients_are_rounded(a, b);
    let s = a.over(b);
    law_products_and_quotients_are_rounded(s, h);
    let t = s.times(h);
    law_products_and_quotients_are_rounded(t, h);
    let u = t.over(h);
    law_products_and_quotients_are_rounded(u, w);
    seq![a, b, w, h, s, t, u, u.times(w)]
}

/// The first byte of the disk falls in the first column.
pub proof fn law_first_column_is_zero(disk_length: u64, width: u64)
    ensures
        column(0, disk_length, width).significand == 0,
{
    assert(nearest(0, 1).significand == 0);
    let s = nearest(0, 1).over(nearest(disk_length as nat, 1));
    assert(s.significand == 0);
    let h = nearest(100, 1);
    assert(0 * h.significand == 0) by (nonlinear_arith);
    let t = s.times(h);
    assert(t.significand == 0);
    let u = t.over(h);
    assert(u.significand == 0);
    let w = nearest(width as nat, 1);
    assert(0 * w.significand == 0) by (nonlinear_arith);
}

/// A size is shown with one decimal: the number of tenths of the unit that is
/// nearest to the size, once that is rounded to a double. What is shown can be
/// read back.
pub proof fn law_size_is_nearest_tenth(n: u64, unit: nat) -> (x: DoubleView)
    ensures
        n > 0 ==> is_rounded(x.significand as int, x.exponent, n as int, 1),
        n == 0 ==> x.significand == 0,
        x.exponent >= 0 ==> is_nearest_integer(
            tenths(n, unit) as int,
            (10 * x.significand * pow2(x.exponent as nat)) as int,
            pow2(unit) as int,
        ),
        x.exponent < 0 ==> is_nearest_integer(
            tenths(n, unit) as int,
            (10 * x.significand) as int,
            pow2(unit + (-x.exponent) as nat) as int,
        ),
        exists|whole: nat, tenth: int|
            {
                &&& 0 <= tenth < 10
                &&& 10 * whole + tenth == tenths(n, unit)
                &&& size_text(n, unit) == #[trigger] decimal(whole) + "."@ + seq![
                    #[trigger] digit_char(tenth),
                ]
            },
{
    let x = nearest(n as nat, 1);
    if n > 0 {
        law_rounds_to_nearest_double(n as nat, 1);
    }
    if x.exponent >= 0 {
        lemma_pow2_pos(unit);
        law_rounds_to_nearest_integer(10 * x.significand * pow2(x.exponent as nat), pow2(unit));
    } else {
        let k = unit + (-x.exponent) as nat;
        lemma_pow2_pos(k);
        law_rounds_to_nearest_integer(10 * x.significand, pow2(k));
    }
    let t = tenths(n, unit);
    assert(10 * (t / 10) + (t % 10) as int == t);
    assert(size_text(n, unit) == decimal(t / 10) + "."@ + seq![digit_char((t % 10) as int)]);
    x
}

} // verus!
