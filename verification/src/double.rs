//! Double precision arithmetic on sizes and offsets, in integers.
//!
//! Sizes are shown in megabytes and gigabytes, and offsets as columns of a
//! bar, after they went through 64-bit binary floating point. The operations
//! here round as the IEEE 754 operations on doubles do: to the nearest of the
//! numbers with a 53-bit significand, and to the even one of two that are
//! equally near.

use vstd::arithmetic::power2::pow2;
use vstd::prelude::*;

use crate::text::{decimal, digit_char, push_decimal};

verus! {

/// The smallest significand of a double.
pub const SIGNIFICAND_MIN: u128 = 0x10_0000_0000_0000;

/// The first number above the significands of doubles.
pub const SIGNIFICAND_END: u128 = 0x20_0000_0000_0000;

/// The integer nearest to `n / d`, and the even one of two that are equally
/// near.
pub open spec fn half_even(n: nat, d: nat) -> nat {
    let q = n / d;
    let r = n % d;
    if 2 * r > d || (2 * r == d && q % 2 == 1) {
        q + 1
    } else {
        q
    }
}

/// The number `significand * 2^exponent`. Where it is not zero, the
/// significand has 53 bits.
#[derive(Debug, Clone, Copy)]
pub struct Double {
    pub significand: u64,
    pub exponent: i32,
}

/// A [`Double`] in mathematical integers.
pub struct DoubleView {
    pub significand: nat,
    pub exponent: int,
}

impl View for Double {
    type V = DoubleView;

    open spec fn view(&self) -> DoubleView {
        DoubleView { significand: self.significand as nat, exponent: self.exponent as int }
    }
}

/// How far `n / d` is from the range of the significands.
pub open spec fn distance(n: nat, d: nat) -> int {
    if n < d * SIGNIFICAND_MIN {
        d * SIGNIFICAND_MIN - n
    } else if n >= d * SIGNIFICAND_END {
        n - d * SIGNIFICAND_END + 1
    } else {
        0
    }
}

/// The double nearest to `n / d`.
pub open spec fn nearest(n: nat, d: nat) -> DoubleView
    decreases distance(n, d),
{
    if n == 0 || d == 0 {
        DoubleView { significand: 0, exponent: 0 }
    } else if n < d * SIGNIFICAND_MIN {
        let r = nearest(2 * n, d);
        DoubleView { exponent: r.exponent - 1, ..r }
    } else if n >= d * SIGNIFICAND_END {
        let r = nearest(n, 2 * d);
        DoubleView { exponent: r.exponent + 1, ..r }
    } else if half_even(n, d) == SIGNIFICAND_END {
        DoubleView { significand: SIGNIFICAND_MIN as nat, exponent: 1 }
    } else {
        DoubleView { significand: half_even(n, d), exponent: 0 }
    }
}

impl DoubleView {
    /// The number with its exponent raised by `e`.
    pub open spec fn scaled(self, e: int) -> DoubleView {
        DoubleView { exponent: self.exponent + e, ..self }
    }

    /// The product, rounded.
    pub open spec fn times(self, o: DoubleView) -> DoubleView {
        nearest(self.significand * o.significand, 1).scaled(self.exponent + o.exponent)
    }

    /// The quotient, rounded.
    pub open spec fn over(self, o: DoubleView) -> DoubleView {
        nearest(self.significand, o.significand).scaled(self.exponent - o.exponent)
    }

    /// The largest integer that is not above the number.
    pub open spec fn floor(self) -> nat {
        if self.exponent >= 0 {
            self.significand * pow2(self.exponent as nat)
        } else {
            self.significand / pow2((-self.exponent) as nat)
        }
    }

    /// The smallest integer that is not below the number.
    pub open spec fn ceil(self) -> nat {
        if self.exponent >= 0 {
            self.significand * pow2(self.exponent as nat)
        } else {
            let p = pow2((-self.exponent) as nat);
            ((self.significand + p - 1) as nat) / p
        }
    }
}

/// The largest 64-bit integer where `x` is above it.
pub open spec fn saturated(x: nat) -> u64 {
    if x > u64::MAX {
        u64::MAX
    } else {
        x as u64
    }
}

impl Double {
    /// The significand is that of a double, and the exponent is in the range
    /// of the exponents of doubles.
    pub open spec fn wf(self) -> bool {
        &&& self.significand < SIGNIFICAND_END
        &&& -1074 <= self.exponent <= 971
    }

    /// The double nearest to `n`.
    pub fn from_u64(n: u64) -> (r: Double)
        ensures
            r.wf(),
            r@ == nearest(n as nat, 1),
            r.significand == 0 <==> n == 0,
            -53 <= r.exponent <= 12,
    {
        round(n as u128, 1)
    }

    /// The product, rounded.
    pub fn times(self, o: Double) -> (r: Double)
        requires
            self.wf(),
            o.wf(),
            -900 <= self.exponent + o.exponent <= 900,
        ensures
            r.wf(),
            r@ == self@.times(o@),
            r.exponent - (self.exponent + o.exponent) <= 54,
            -53 <= r.exponent - (self.exponent + o.exponent),
    {
        proof {
            assert(self.significand * o.significand < 0x400_0000_0000_0000_0000_0000_0000)
                by (nonlinear_arith)
                requires
                    self.significand < 0x20_0000_0000_0000,
                    o.significand < 0x20_0000_0000_0000,
            ;
        }
        let r = round(self.significand as u128 * o.significand as u128, 1);
        Double { significand: r.significand, exponent: r.exponent + (self.exponent + o.exponent) }
    }

    /// The quotient, rounded.
    pub fn over(self, o: Double) -> (r: Double)
        requires
            self.wf(),
            o.wf(),
            o.significand > 0,
            -900 <= self.exponent - o.exponent <= 900,
        ensures
            r.wf(),
            r@ == self@.over(o@),
            r.exponent - (self.exponent - o.exponent) <= 54,
            -106 <= r.exponent - (self.exponent - o.exponent),
    {
        let r = round(self.significand as u128, o.significand as u128);
        Double { significand: r.significand, exponent: r.exponent + (self.exponent - o.exponent) }
    }

    /// The largest integer that is not above the number, or the largest one
    /// of 64 bits.
    pub fn floor(self) -> (r: u64)
        requires
            self.wf(),
        ensures
            r == saturated(self@.floor()),
    {
        if self.exponent >= 0 {
            return self.whole();
        }
        let k = (-self.exponent) as u32;
        if k >= 64 {
            proof {
                lemma_pow2_at_least_64(k as nat);
                vstd::arithmetic::div_mod::lemma_basic_div(
                    self.significand as int,
                    pow2(k as nat) as int,
                );
            }
            return 0;
        }
        let p: u128 = power_of_two(k);
        proof {
            vstd::arithmetic::div_mod::lemma_div_is_ordered_by_denominator(
                self.significand as int,
                1,
                p as int,
            );
        }
        (self.significand as u128 / p) as u64
    }

    /// The smallest integer that is not below the number, or the largest one
    /// of 64 bits.
    pub fn ceil(self) -> (r: u64)
        requires
            self.wf(),
        ensures
            r == saturated(self@.ceil()),
    {
        if self.exponent >= 0 {
            return self.whole();
        }
        let k = (-self.exponent) as u32;
        if k >= 64 {
            proof {
                lemma_pow2_at_least_64(k as nat);
                let p = pow2(k as nat) as int;
                if self.significand == 0 {
                    vstd::arithmetic::div_mod::lemma_basic_div(p - 1, p);
                } else {
                    let s = self.significand as int;
                    vstd::arithmetic::div_mod::lemma_div_plus_one(s - 1, p);
                    vstd::arithmetic::div_mod::lemma_basic_div(s - 1, p);
                }
            }
            if self.significand == 0 {
                return 0;
            } else {
                return 1;
            }
        }
        let p: u128 = power_of_two(k);
        let n: u128 = self.significand as u128 + p - 1;
        proof {
            assert(n / p <= u64::MAX) by (nonlinear_arith)
                requires
                    n == self.significand + p - 1,
                    p >= 1,
                    self.significand < u64::MAX,
            ;
        }
        (n / p) as u64
    }

    fn whole(self) -> (r: u64)
        requires
            self.wf(),
            self.exponent >= 0,
        ensures
            r == saturated(self.significand as nat * pow2(self.exponent as nat)),
    {
        if self.significand == 0 {
            proof {
                assert(0 * pow2(self.exponent as nat) == 0) by (nonlinear_arith);
            }
            return 0;
        }
        if self.exponent >= 64 {
            proof {
                lemma_pow2_at_least_64(self.exponent as nat);
                let p = pow2(self.exponent as nat);
                assert(self.significand * p > u64::MAX) by (nonlinear_arith)
                    requires
                        self.significand >= 1,
                        p > u64::MAX,
                ;
            }
            return u64::MAX;
        }
        let p: u128 = power_of_two(self.exponent as u32);
        proof {
            assert(self.significand * p < u128::MAX) by (nonlinear_arith)
                requires
                    self.significand < 0x20_0000_0000_0000,
                    p <= 0x1_0000_0000_0000_0000,
            ;
        }
        let v: u128 = self.significand as u128 * p;
        if v > u64::MAX as u128 {
            u64::MAX
        } else {
            v as u64
        }
    }
}

fn power_of_two(k: u32) -> (r: u128)
    requires
        k <= 100,
    ensures
        r == pow2(k as nat),
        1 <= r,
        k <= 64 ==> r <= 0x1_0000_0000_0000_0000,
        r <= 0x10_0000_0000_0000_0000_0000_0000,
{
    let mut r: u128 = 1;
    let mut i: u32 = 0;
    proof {
        vstd::arithmetic::power2::lemma2_to64();
    }
    while i < k
        invariant
            i <= k <= 100,
            r == pow2(i as nat),
            r >= 1,
            i <= 64 ==> r <= 0x1_0000_0000_0000_0000,
            r <= 0x10_0000_0000_0000_0000_0000_0000,
        decreases k - i,
    {
        proof {
            vstd::arithmetic::power2::lemma_pow2_unfold((i + 1) as nat);
            vstd::arithmetic::power2::lemma2_to64();
            vstd::arithmetic::power2::lemma2_to64_rest();
            lemma_pow2_monotone((i + 1) as nat, 100);
            vstd::arithmetic::power2::lemma_pow2_adds(50, 50);
            if i + 1 <= 64 {
                lemma_pow2_monotone((i + 1) as nat, 64);
            }
        }
        r = 2 * r;
        i = i + 1;
    }
    r
}

proof fn lemma_pow2_monotone(a: nat, b: nat)
    requires
        a <= b,
    ensures
        pow2(a) <= pow2(b),
{
    if a < b {
        vstd::arithmetic::power2::lemma_pow2_strictly_increases(a, b);
    }
}

proof fn lemma_pow2_at_least_64(k: nat)
    requires
        k >= 64,
    ensures
        pow2(k) > u64::MAX,
{
    vstd::arithmetic::power2::lemma2_to64();
    lemma_pow2_monotone(64, k);
}

fn round_half_even(n: u128, d: u128) -> (r: u128)
    requires
        0 < d < 0x8000_0000_0000_0000_0000_0000_0000_0000,
        n < u128::MAX,
    ensures
        r == half_even(n as nat, d as nat),
{
    let q: u128 = n / d;
    let r: u128 = n % d;
    if 2 * r > d || (2 * r == d && q % 2 == 1) {
        proof {
            assert(q + 1 <= u128::MAX) by (nonlinear_arith)
                requires
                    q == n / d,
                    n < u128::MAX,
                    d > 0,
            ;
        }
        q + 1
    } else {
        q
    }
}

/// The double nearest to `n / d`.
fn round(n: u128, d: u128) -> (r: Double)
    requires
        n < 0x400_0000_0000_0000_0000_0000_0000,
        0 < d < 0x20_0000_0000_0000,
    ensures
        r@ == nearest(n as nat, d as nat),
        r.significand < SIGNIFICAND_END,
        r.significand == 0 <==> n == 0,
        -106 <= r.exponent <= 54,
        d == 1 ==> -53 <= r.exponent,
        n <= u64::MAX && d == 1 ==> r.exponent <= 12,
{
    if n == 0 {
        return Double { significand: 0, exponent: 0 };
    }
    let mut a: u128 = n;
    let mut b: u128 = d;
    let mut e: i32 = 0;
    proof {
        vstd::arithmetic::power2::lemma2_to64();
    }
    if a < b * 0x10_0000_0000_0000 {
        while a < b * 0x10_0000_0000_0000
            invariant
                b == d,
                0 < d < 0x20_0000_0000_0000,
                0 < a < d * 0x20_0000_0000_0000,
                -106 <= e <= 0,
                d == 1 ==> -53 <= e,
                a >= pow2((-e) as nat),
                nearest(n as nat, d as nat) == nearest(a as nat, b as nat).scaled(e as int),
            decreases 106 + e,
        {
            proof {
                lemma_pow2_bound(a as nat, (-e) as nat);
                vstd::arithmetic::power2::lemma_pow2_unfold((1 - e) as nat);
            }
            a = 2 * a;
            e = e - 1;
        }
    } else {
        while a >= b * 0x20_0000_0000_0000
            invariant
                a == n,
                0 < d,
                0 < b < 0x40_0000_0000_0000,
                0 < a < 0x400_0000_0000_0000_0000_0000_0000,
                a >= b * 0x10_0000_0000_0000,
                0 <= e <= 53,
                b >= pow2(e as nat),
                n <= u64::MAX ==> e <= 11,
                nearest(n as nat, d as nat) == nearest(a as nat, b as nat).scaled(e as int),
            decreases 53 - e,
        {
            proof {
                lemma_pow2_bound(b as nat, e as nat);
                if n <= u64::MAX && e >= 11 {
                    lemma_pow2_monotone(11, e as nat);
                    vstd::arithmetic::power2::lemma2_to64();
                }
                vstd::arithmetic::power2::lemma_pow2_unfold((e + 1) as nat);
            }
            b = 2 * b;
            e = e + 1;
        }
    }
    let q: u128 = round_half_even(a, b);
    proof {
        assert(0x10_0000_0000_0000 <= a / b < 0x20_0000_0000_0000) by (nonlinear_arith)
            requires
                b * 0x10_0000_0000_0000 <= a < b * 0x20_0000_0000_0000,
        ;
    }
    if q == 0x20_0000_0000_0000 {
        Double { significand: 0x10_0000_0000_0000, exponent: e + 1 }
    } else {
        Double { significand: q as u64, exponent: e }
    }
}

proof fn lemma_pow2_bound(a: nat, k: nat)
    requires
        a >= pow2(k),
    ensures
        a < 0x20_0000_0000_0000 ==> k < 53,
        a < 0x400_0000_0000_0000_0000_0000_0000 ==> k < 106,
{
    vstd::arithmetic::power2::lemma2_to64();
    vstd::arithmetic::power2::lemma2_to64_rest();
    if k >= 53 {
        if k > 53 {
            vstd::arithmetic::power2::lemma_pow2_strictly_increases(53, k);
        }
    }
    if k >= 106 {
        if k > 106 {
            vstd::arithmetic::power2::lemma_pow2_strictly_increases(106, k);
        }
        vstd::arithmetic::power2::lemma_pow2_adds(53, 53);
    }
}

/// How many tenths of `2^unit` the number `n` makes, after it was rounded to a
/// double.
pub open spec fn tenths(n: u64, unit: nat) -> nat {
    let x = nearest(n as nat, 1);
    if x.exponent >= 0 {
        half_even(10 * x.significand * pow2(x.exponent as nat), pow2(unit))
    } else {
        half_even(10 * x.significand, pow2(unit + (-x.exponent) as nat))
    }
}

/// `n` in multiples of `2^unit`, with one decimal.
pub open spec fn size_text(n: u64, unit: nat) -> Seq<char> {
    decimal(tenths(n, unit) / 10) + "."@ + seq![digit_char((tenths(n, unit) % 10) as int)]
}

/// Appends `n` in multiples of `2^unit`, with one decimal.
pub fn push_size(s: &mut String, n: u64, unit: u32)
    requires
        10 <= unit <= 40,
    ensures
        final(s)@ == old(s)@ + size_text(n, unit as nat),
{
    let x = Double::from_u64(n);
    let ten: u128 = 10 * x.significand as u128;
    let t: u128 = if x.exponent >= 0 {
        let p = power_of_two(x.exponent as u32);
        proof {
            lemma_pow2_monotone(x.exponent as nat, 12);
            vstd::arithmetic::power2::lemma2_to64();
            assert(ten * p <= 0x140_0000_0000_0000 * 0x1000) by (nonlinear_arith)
                requires
                    ten <= 0x140_0000_0000_0000,
                    p <= 0x1000,
            ;
        }
        round_half_even(ten * p, power_of_two(unit))
    } else {
        round_half_even(ten, power_of_two(unit + (-x.exponent) as u32))
    };
    proof {
        assert(t == tenths(n, unit as nat));
        let k = if x.exponent >= 0 {
            unit as nat
        } else {
            (unit - x.exponent) as nat
        };
        let m = if x.exponent >= 0 {
            ten * pow2(x.exponent as nat)
        } else {
            ten as int
        };
        lemma_pow2_monotone(10, k);
        vstd::arithmetic::power2::lemma2_to64();
        assert(m / (pow2(k) as int) <= m / 1024) by {
            vstd::arithmetic::div_mod::lemma_div_is_ordered_by_denominator(
                m,
                1024,
                pow2(k) as int,
            );
        }
    }
    push_decimal(s, (t / 10) as u64);
    s.append(".");
    s.push(crate::text::digit((t % 10) as u8));
}

/// Which of `width` columns the offset `x` of a disk falls in: its share of
/// the disk in percent, taken back to a share of `width`, in doubles.
pub open spec fn column(x: u64, disk_length: u64, width: u64) -> DoubleView {
    let hundred = nearest(100, 1);
    nearest(x as nat, 1).over(nearest(disk_length as nat, 1)).times(hundred).over(hundred).times(
        nearest(width as nat, 1),
    )
}

/// Which of `width` columns the offset `x` of a disk falls in.
pub fn column_of(x: u64, disk_length: u64, width: u64) -> (r: Double)
    requires
        disk_length > 0,
    ensures
        r.wf(),
        r@ == column(x, disk_length, width),
{
    let hundred = Double::from_u64(100);
    let share = Double::from_u64(x).over(Double::from_u64(disk_length));
    share.times(hundred).over(hundred).times(Double::from_u64(width))
}

} // verus!
