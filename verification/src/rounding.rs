//! Numbers with a fixed count of binary digits, as they come out of calculations in single and
//! double precision. A result is the nearest such number, and the one with an even mantissa where
//! two are as near.

use vstd::arithmetic::power2::{
    lemma_pow2_adds, lemma_pow2_pos, lemma_pow2_strictly_increases, lemma_pow2_unfold, pow2,
};
use vstd::prelude::*;

verus! {

/// The binary digits of a number in single precision.
pub const SINGLE: u32 = 24;

/// The binary digits of a number in double precision.
pub const DOUBLE: u32 = 53;

/// A number that is not negative: the mantissa times two to the power of the exponent.
#[derive(Debug, Clone, Copy, PartialEq, Eq, Structural)]
pub struct Float {
    pub mantissa: u64,
    pub exponent: i32,
}

/// How many binary digits a number has.
pub open spec fn digits(n: nat) -> nat
    decreases n,
{
    if n == 0 {
        0
    } else {
        1 + digits(n / 2)
    }
}

/// The fraction `n / d` divided by two to the power of `e`.
pub open spec fn shifted(n: nat, d: nat, e: int) -> (nat, nat) {
    if e >= 0 {
        (n, d * pow2(e as nat))
    } else {
        (n * pow2((-e) as nat), d)
    }
}

/// The whole number that is nearest to `a / b`, the even one of two that are as near.
pub open spec fn nearest(a: nat, b: nat) -> nat {
    let below = a / b;
    let rest = a % b;
    if 2 * rest < b || (2 * rest == b && below % 2 == 0) {
        below
    } else {
        below + 1
    }
}

/// The exponent with which the mantissa of `n / d` has `p` binary digits.
pub open spec fn exponent_of(n: nat, d: nat, p: nat) -> int {
    let e = digits(n) - digits(d) - p;
    let (a, b) = shifted(n, d, e);
    if a < pow2(p) * b {
        e
    } else {
        e + 1
    }
}

/// The number with `p` binary digits that is nearest to `n / d`.
pub open spec fn rounded(n: nat, d: nat, p: nat) -> Float {
    if n == 0 {
        Float { mantissa: 0, exponent: 0 }
    } else {
        let e = exponent_of(n, d, p);
        let (a, b) = shifted(n, d, e);
        Float { mantissa: nearest(a, b) as u64, exponent: e as i32 }
    }
}

/// A number lies between the powers of two that its digits tell.
pub proof fn lemma_digits(n: nat)
    requires
        n > 0,
    ensures
        digits(n) >= 1,
        pow2((digits(n) - 1) as nat) <= n < pow2(digits(n)),
    decreases n,
{
    lemma_pow2_unfold(digits(n));
    if n == 1 {
        assert(digits(0) == 0);
        assert(pow2(0) == 1) by {
            vstd::arithmetic::power2::lemma2_to64();
        }
    } else {
        lemma_digits(n / 2);
        lemma_pow2_unfold(digits(n / 2));
    }
}

/// A number below a power of two has no more digits than that tells.
pub proof fn lemma_digits_bound(n: nat, k: nat)
    requires
        n < pow2(k),
    ensures
        digits(n) <= k,
{
    if n > 0 {
        lemma_digits(n);
        if digits(n) > k {
            if digits(n) - 1 > k {
                lemma_pow2_strictly_increases(k, (digits(n) - 1) as nat);
            }
        }
    }
}

/// Powers of two do not fall.
pub proof fn lemma_pow2_grows(a: nat, b: nat)
    requires
        a <= b,
    ensures
        0 < pow2(a) <= pow2(b),
{
    lemma_pow2_pos(a);
    if a < b {
        lemma_pow2_strictly_increases(a, b);
    }
}

/// The exponent that the counts of digits tell is the right one, or one too small.
proof fn lemma_first_exponent(n: nat, d: nat, p: nat)
    requires
        n > 0,
        d > 0,
        p > 0,
    ensures
        ({
            let (a, b) = shifted(n, d, digits(n) - digits(d) - p);
            &&& b > 0
            &&& pow2((p - 1) as nat) * b <= a
            &&& a < 2 * (pow2(p) * b)
        }),
{
    let (dn, dd) = (digits(n), digits(d));
    let e = dn - dd - p;
    lemma_digits(n);
    lemma_digits(d);
    lemma_pow2_unfold(dn);
    lemma_pow2_unfold(dd);
    lemma_pow2_unfold(p);
    let (pn, pd, pp) = (pow2(dn), pow2(dd), pow2(p));
    let (hn, hd, hp) = (
        pow2((dn - 1) as nat),
        pow2((dd - 1) as nat),
        pow2((p - 1) as nat),
    );
    if e < 0 {
        let k = (-e) as nat;
        let pk = pow2(k);
        lemma_pow2_pos(k);
        lemma_pow2_adds(dn, k);
        lemma_pow2_adds(dd, p);
        assert(dn + k == dd + p);
        assert(pn * pk == pd * pp);
        assert(n * pk < pn * pk) by (nonlinear_arith)
            requires
                n < pn,
                pk > 0,
        ;
        assert(pd * pp <= 2 * (pp * d)) by (nonlinear_arith)
            requires
                pd == 2 * hd,
                hd <= d,
                pp >= 0,
        ;
        assert(hn * pk <= n * pk) by (nonlinear_arith)
            requires
                hn <= n,
                pk > 0,
        ;
        assert(hp * d <= hn * pk) by (nonlinear_arith)
            requires
                pn * pk == pd * pp,
                pn == 2 * hn,
                pp == 2 * hp,
                d < pd,
                hp >= 0,
        ;
    } else {
        let k = e as nat;
        let pk = pow2(k);
        lemma_pow2_pos(k);
        lemma_pow2_adds(dd, p);
        lemma_pow2_adds(dd + p, k);
        assert(dn == dd + p + k);
        assert(pn == pd * pp * pk);
        assert(d * pk > 0) by (nonlinear_arith)
            requires
                d > 0,
                pk > 0,
        ;
        assert(pd * pp * pk <= 2 * (pp * (d * pk))) by (nonlinear_arith)
            requires
                pd == 2 * hd,
                hd <= d,
                pp >= 0,
                pk > 0,
        ;
        assert(hp * (d * pk) <= hn) by (nonlinear_arith)
            requires
                pn == pd * pp * pk,
                pn == 2 * hn,
                pp == 2 * hp,
                d < pd,
                hp >= 0,
                pk > 0,
        ;
    }
}

/// With its exponent the mantissa of a number has the digits that are wanted.
pub proof fn lemma_exponent(n: nat, d: nat, p: nat)
    requires
        n > 0,
        d > 0,
        p > 0,
    ensures
        ({
            let (a, b) = shifted(n, d, exponent_of(n, d, p));
            &&& b > 0
            &&& pow2((p - 1) as nat) * b <= a
            &&& a < pow2(p) * b
        }),
{
    lemma_first_exponent(n, d, p);
    let e = digits(n) - digits(d) - p;
    let (a, b) = shifted(n, d, e);
    lemma_pow2_unfold(p);
    let (pp, hp) = (pow2(p), pow2((p - 1) as nat));
    if a >= pp * b {
        let (c, f) = shifted(n, d, e + 1);
        if e >= 0 {
            let pk = pow2(e as nat);
            lemma_pow2_unfold((e + 1) as nat);
            assert(f == 2 * b) by (nonlinear_arith)
                requires
                    f == d * (2 * pk),
                    b == d * pk,
            ;
            assert(pp * (2 * b) == 2 * (pp * b)) by (nonlinear_arith);
            assert(hp * (2 * b) == pp * b) by (nonlinear_arith)
                requires
                    pp == 2 * hp,
            ;
        } else {
            let k = (-e) as nat;
            lemma_pow2_unfold(k);
            assert(pow2(0) == 1) by {
                vstd::arithmetic::power2::lemma2_to64();
            }
            let pk = pow2((k - 1) as nat);
            assert(a == 2 * c) by {
                assert(n * (2 * pk) == 2 * (n * pk)) by (nonlinear_arith);
                if e + 1 >= 0 {
                    assert(d * 1 == d);
                    assert(n * 1 == n);
                }
            }
            assert(f == b);
            assert(2 * (hp * b) == pp * b) by (nonlinear_arith)
                requires
                    pp == 2 * hp,
            ;
        }
    }
}

/// The nearest whole number is less than half away, and lies between the bounds.
pub proof fn lemma_nearest(a: nat, b: nat, low: nat, high: nat)
    requires
        b > 0,
        low * b <= a < high * b,
    ensures
        low <= nearest(a, b) <= high,
        2 * (nearest(a, b) * b) <= 2 * a + b,
        2 * a <= 2 * (nearest(a, b) * b) + b,
{
    let below = a / b;
    let rest = a % b;
    vstd::arithmetic::div_mod::lemma_fundamental_div_mod(a as int, b as int);
    assert(0 <= rest < b);
    assert(a == b * below + rest);
    assert((below + 1) * b == b * below + b) by (nonlinear_arith);
    assert(below * b == b * below) by (nonlinear_arith);
    assert(below >= low) by (nonlinear_arith)
        requires
            low * b <= a,
            a < b * below + b,
            b > 0,
    ;
    assert(below < high) by (nonlinear_arith)
        requires
            a < high * b,
            b * below <= a,
            b > 0,
    ;
}

/// Two to the power of a number.
fn power(n: u32) -> (r: u128)
    requires
        n <= 120,
    ensures
        r == pow2(n as nat),
        r <= pow2(120),
{
    let mut r: u128 = 1;
    let mut i: u32 = 0;
    proof {
        lemma_big_powers();
    }
    while i < n
        invariant
            i <= n,
            n <= 120,
            r == pow2(i as nat),
            pow2(120) == 0x1_0000_0000_0000_0000_0000_0000_0000_00,
        decreases n - i,
    {
        proof {
            lemma_pow2_unfold((i + 1) as nat);
            lemma_pow2_grows(i as nat, 120);
        }
        r = 2 * r;
        i = i + 1;
    }
    proof {
        lemma_pow2_grows(n as nat, 120);
    }
    r
}

/// Some powers of two.
proof fn lemma_big_powers()
    ensures
        pow2(0) == 1,
        pow2(23) == 0x80_0000,
        pow2(24) == 0x100_0000,
        pow2(52) == 0x10_0000_0000_0000,
        pow2(53) == 0x20_0000_0000_0000,
        pow2(64) == 0x1_0000_0000_0000_0000,
        pow2(107) == 0x800_0000_0000_0000_0000_0000_0000,
        pow2(120) == 0x1_0000_0000_0000_0000_0000_0000_0000_00,
{
    vstd::arithmetic::power2::lemma2_to64();
    vstd::arithmetic::power2::lemma2_to64_rest();
    lemma_pow2_adds(64, 43);
    lemma_pow2_adds(64, 56);
    assert(0x1_0000_0000_0000_0000 * 0x800_0000_0000 == 0x800_0000_0000_0000_0000_0000_0000int);
    assert(0x1_0000_0000_0000_0000 * 0x100_0000_0000_0000
        == 0x1_0000_0000_0000_0000_0000_0000_0000_00int);
}

/// How many binary digits a number has.
fn count_digits(n: u128) -> (r: u32)
    ensures
        r == digits(n as nat),
        r <= 128,
{
    let mut rest: u128 = n;
    let mut r: u32 = 0;
    proof {
        lemma_big_powers();
        lemma_pow2_adds(64, 64);
        assert(0x1_0000_0000_0000_0000 * 0x1_0000_0000_0000_0000 > u128::MAX as int);
        lemma_digits_bound(n as nat, 128);
    }
    while rest > 0
        invariant
            r + digits(rest as nat) == digits(n as nat),
            digits(n as nat) <= 128,
        decreases rest,
    {
        rest = rest / 2;
        r = r + 1;
    }
    r
}

/// The whole number that is nearest to `a / b`, the even one of two that are as near.
fn nearest_to(a: u128, b: u128) -> (r: u128)
    requires
        0 < b,
        a <= pow2(120),
        b <= pow2(120),
    ensures
        r == nearest(a as nat, b as nat),
{
    proof {
        lemma_big_powers();
    }
    let below: u128 = a / b;
    let rest: u128 = a % b;
    proof {
        assert(below <= a) by (nonlinear_arith)
            requires
                below == a / b,
                b > 0,
                a >= 0,
        ;
    }
    if 2 * rest < b || (2 * rest == b && below % 2 == 0) {
        below
    } else {
        below + 1
    }
}

/// A fraction divided by a power of two stays small.
proof fn lemma_shifted_bounds(n: nat, d: nat, p: nat)
    requires
        n > 0,
        d > 0,
        0 < p <= 53,
        digits(n) <= 107,
        digits(d) <= 64,
    ensures
        ({
            let e = digits(n) - digits(d) - p;
            &&& -117 <= e <= 106
            &&& shifted(n, d, e).0 <= pow2(120)
            &&& shifted(n, d, e).1 <= pow2(107)
            &&& pow2(p) * shifted(n, d, e).1 <= pow2(120)
            &&& shifted(n, d, e + 1).0 <= pow2(120)
            &&& shifted(n, d, e + 1).1 <= pow2(108)
        }),
{
    let (dn, dd) = (digits(n), digits(d));
    let e = dn - dd - p;
    lemma_digits(n);
    lemma_digits(d);
    lemma_pow2_grows(dn, 107);
    lemma_pow2_grows(dn, 120);
    lemma_pow2_grows(dd, 107);
    lemma_pow2_grows(107, 108);
    lemma_pow2_pos(p);
    assert(pow2(0) == 1) by {
        lemma_big_powers();
    }
    if e < 0 {
        let k = (-e) as nat;
        lemma_pow2_adds(dn, k);
        lemma_pow2_grows(dn + k, 120);
        lemma_pow2_grows((k - 1) as nat, k);
        let (pn, pk, hk) = (pow2(dn), pow2(k), pow2((k - 1) as nat));
        assert(n * pk <= pn * pk) by (nonlinear_arith)
            requires
                n < pn,
                pk > 0,
        ;
        assert(n * hk <= n * pk) by (nonlinear_arith)
            requires
                hk <= pk,
                n > 0,
        ;
        lemma_pow2_adds(p, dd);
        lemma_pow2_grows(p + dd, 120);
        let (pp, pd) = (pow2(p), pow2(dd));
        assert(pp * d <= pp * pd) by (nonlinear_arith)
            requires
                d < pd,
                pp > 0,
        ;
        assert(d * 1 == d);
    } else {
        let k = e as nat;
        lemma_pow2_adds(dd, k);
        lemma_pow2_grows(dd + k, 107);
        lemma_pow2_unfold((k + 1) as nat);
        lemma_pow2_unfold(108);
        lemma_pow2_pos(k);
        let (pd, pk, pp) = (pow2(dd), pow2(k), pow2(p));
        assert(d * pk <= pd * pk) by (nonlinear_arith)
            requires
                d < pd,
                pk > 0,
        ;
        assert(d * (2 * pk) == 2 * (d * pk)) by (nonlinear_arith);
        lemma_pow2_adds(p, dd + k);
        lemma_pow2_grows(p + dd + k, 120);
        assert(p + (dd + k) == dn);
        assert(pp * (d * pk) <= pp * (pd * pk)) by (nonlinear_arith)
            requires
                d * pk <= pd * pk,
                pp > 0,
        ;
    }
}

/// The number with `p` binary digits that is nearest to `n / d`.
fn round(n: u128, d: u128, p: u32) -> (r: Float)
    requires
        0 < d <= u64::MAX,
        0 < p <= 53,
        n < pow2(107),
    ensures
        r == rounded(n as nat, d as nat, p as nat),
        r.mantissa <= pow2(p as nat),
        -117 <= r.exponent <= 107,
{
    if n == 0 {
        return Float { mantissa: 0, exponent: 0 };
    }
    proof {
        lemma_big_powers();
        lemma_digits_bound(n as nat, 107);
        lemma_digits_bound(d as nat, 64);
        lemma_shifted_bounds(n as nat, d as nat, p as nat);
        lemma_exponent(n as nat, d as nat, p as nat);
        lemma_pow2_grows(107, 120);
        lemma_pow2_grows(108, 120);
        lemma_pow2_grows(p as nat, 53);
        lemma_first_exponent(n as nat, d as nat, p as nat);
    }
    let first: i32 = count_digits(n) as i32 - count_digits(d) as i32 - p as i32;
    let (a, b): (u128, u128) = if first >= 0 {
        (n, d * power(first as u32))
    } else {
        (n * power((-first) as u32), d)
    };
    let limit: u128 = power(p) * b;
    let (exponent, top, bottom): (i32, u128, u128) = if a < limit {
        (first, a, b)
    } else {
        let e: i32 = first + 1;
        if e >= 0 {
            (e, n, d * power(e as u32))
        } else {
            (e, n * power((-e) as u32), d)
        }
    };
    proof {
        lemma_nearest(
            top as nat,
            bottom as nat,
            pow2((p - 1) as nat),
            pow2(p as nat),
        );
    }
    let mantissa: u128 = nearest_to(top, bottom);
    Float { mantissa: mantissa as u64, exponent }
}

impl Float {
    /// The number with `p` binary digits that is nearest to a whole number.
    pub open spec fn of(n: nat, p: nat) -> Float {
        rounded(n, 1, p)
    }

    /// The product of two numbers, with `p` binary digits.
    pub open spec fn times(self, other: Float, p: nat) -> Float {
        let r = rounded(self.mantissa as nat * other.mantissa as nat, 1, p);
        Float {
            mantissa: r.mantissa,
            exponent: (r.exponent + self.exponent + other.exponent) as i32,
        }
    }

    /// The quotient of two numbers, with `p` binary digits.
    pub open spec fn over(self, other: Float, p: nat) -> Float {
        let r = rounded(self.mantissa as nat, other.mantissa as nat, p);
        Float {
            mantissa: r.mantissa,
            exponent: (r.exponent + self.exponent - other.exponent) as i32,
        }
    }

    /// The largest whole number that is not above the number.
    pub open spec fn floor(self) -> nat {
        if self.exponent >= 0 {
            self.mantissa as nat * pow2(self.exponent as nat)
        } else {
            self.mantissa as nat / pow2((-self.exponent) as nat)
        }
    }

    /// The smallest whole number that is not below the number.
    pub open spec fn ceiling(self) -> nat {
        if self.exponent >= 0 {
            self.mantissa as nat * pow2(self.exponent as nat)
        } else {
            let unit = pow2((-self.exponent) as nat);
            ((self.mantissa + unit - 1) / (unit as int)) as nat
        }
    }

    /// The nearest whole number, the larger one of two that are as near.
    pub open spec fn half_up(self) -> nat {
        if self.exponent >= 0 {
            self.mantissa as nat * pow2(self.exponent as nat)
        } else {
            let unit = pow2((-self.exponent) as nat);
            (2 * self.mantissa as nat + unit) / (2 * unit)
        }
    }

    /// Whether the number is not less than a whole number.
    pub open spec fn at_least(self, n: nat) -> bool {
        if self.exponent >= 0 {
            self.mantissa as nat * pow2(self.exponent as nat) >= n
        } else {
            self.mantissa as nat >= n * pow2((-self.exponent) as nat)
        }
    }

    /// The mantissa has the digits that are at hand, and the exponent is not too far from zero.
    pub open spec fn within(self, reach: int) -> bool {
        self.mantissa <= pow2(53) && -reach <= self.exponent <= reach
    }

    /// The number with `p` binary digits that is nearest to a whole number.
    pub fn from_whole(n: u64, p: u32) -> (r: Float)
        requires
            0 < p <= 53,
        ensures
            r == Float::of(n as nat, p as nat),
            r.within(117),
    {
        proof {
            lemma_big_powers();
            lemma_pow2_grows(p as nat, 53);
            lemma_pow2_grows(64, 107);
        }
        round(n as u128, 1, p)
    }

    /// The product of two numbers, with `p` binary digits.
    pub fn multiply(&self, other: &Float, p: u32) -> (r: Float)
        requires
            0 < p <= 53,
            self.within(1000),
            other.within(1000),
        ensures
            r == self.times(*other, p as nat),
            r.mantissa <= pow2(53),
            self.exponent + other.exponent - 117 <= r.exponent,
            r.exponent <= self.exponent + other.exponent + 107,
    {
        proof {
            lemma_big_powers();
            lemma_pow2_grows(p as nat, 53);
            let (a, b) = (self.mantissa as int, other.mantissa as int);
            assert(0 <= a * b <= 0x20_0000_0000_0000 * 0x20_0000_0000_0000) by (nonlinear_arith)
                requires
                    0 <= a <= 0x20_0000_0000_0000,
                    0 <= b <= 0x20_0000_0000_0000,
            ;
            assert(0x20_0000_0000_0000 * 0x20_0000_0000_0000
                < 0x800_0000_0000_0000_0000_0000_0000int);
        }
        let product: u128 = self.mantissa as u128 * other.mantissa as u128;
        let r = round(product, 1, p);
        Float { mantissa: r.mantissa, exponent: r.exponent + self.exponent + other.exponent }
    }

    /// The quotient of two numbers, with `p` binary digits.
    pub fn divide(&self, other: &Float, p: u32) -> (r: Float)
        requires
            0 < p <= 53,
            self.within(1000),
            other.within(1000),
            other.mantissa > 0,
        ensures
            r == self.over(*other, p as nat),
            r.mantissa <= pow2(53),
            self.exponent - other.exponent - 117 <= r.exponent,
            r.exponent <= self.exponent - other.exponent + 107,
    {
        proof {
            lemma_big_powers();
            lemma_pow2_grows(p as nat, 53);
            lemma_pow2_grows(64, 107);
        }
        let r = round(self.mantissa as u128, other.mantissa as u128, p);
        Float { mantissa: r.mantissa, exponent: r.exponent + self.exponent - other.exponent }
    }

    /// The largest whole number that is not above the number, cut off at the largest `u32`.
    pub fn floor_u32(&self) -> (r: u32)
        requires
            self.within(2000),
        ensures
            r == if self.floor() < u32::MAX {
                self.floor()
            } else {
                u32::MAX as nat
            },
    {
        if self.exponent >= 0 {
            self.whole_u32()
        } else {
            let k: u32 = (-self.exponent) as u32;
            let n: u64 = if k >= 64 {
                proof {
                    lemma_far_below(self.mantissa as nat, k as nat);
                }
                0
            } else {
                let unit: u128 = power(k);
                proof {
                    lemma_pow2_pos(k as nat);
                    lemma_quotient_bound(self.mantissa as nat, unit as nat);
                }
                (self.mantissa as u128 / unit) as u64
            };
            if n < 0xffff_ffff {
                n as u32
            } else {
                u32::MAX
            }
        }
    }

    /// The number where it is whole, cut off at the largest `u32`.
    fn whole_u32(&self) -> (r: u32)
        requires
            self.exponent >= 0,
        ensures
            r == if self.mantissa * pow2(self.exponent as nat) < u32::MAX {
                self.mantissa * pow2(self.exponent as nat)
            } else {
                u32::MAX as int
            },
    {
        proof {
            lemma_big_powers();
        }
        if self.mantissa == 0 {
            0
        } else if self.exponent >= 32 {
            proof {
                vstd::arithmetic::power2::lemma2_to64();
                lemma_pow2_grows(32, self.exponent as nat);
                let (m, k) = (self.mantissa as int, pow2(self.exponent as nat) as int);
                assert(m * k >= k) by (nonlinear_arith)
                    requires
                        m >= 1,
                        k > 0,
                ;
            }
            u32::MAX
        } else {
            let unit: u128 = power(self.exponent as u32);
            proof {
                vstd::arithmetic::power2::lemma2_to64();
                lemma_pow2_grows(self.exponent as nat, 32);
                let (m, k) = (self.mantissa as int, unit as int);
                assert(0 <= m * k <= 0xffff_ffff_ffff_ffff * 0x1_0000_0000) by (nonlinear_arith)
                    requires
                        0 <= m <= 0xffff_ffff_ffff_ffff,
                        0 <= k <= 0x1_0000_0000,
                ;
            }
            let n: u128 = self.mantissa as u128 * unit;
            if n < 0xffff_ffff {
                n as u32
            } else {
                u32::MAX
            }
        }
    }

    /// The smallest whole number that is not below the number, cut off at the largest `u32`.
    pub fn ceiling_u32(&self) -> (r: u32)
        requires
            self.within(2000),
        ensures
            r == if self.ceiling() < u32::MAX {
                self.ceiling()
            } else {
                u32::MAX as nat
            },
    {
        if self.exponent >= 0 {
            self.whole_u32()
        } else {
            let k: u32 = (-self.exponent) as u32;
            let n: u64 = if k >= 64 {
                proof {
                    lemma_far_below(self.mantissa as nat, k as nat);
                }
                if self.mantissa > 0 {
                    1
                } else {
                    0
                }
            } else {
                let unit: u128 = power(k);
                proof {
                    lemma_big_powers();
                    lemma_pow2_grows(k as nat, 64);
                    let (m, u) = (self.mantissa as int, unit as int);
                    assert(0 <= (m + u - 1) / u <= m) by (nonlinear_arith)
                        requires
                            m >= 0,
                            u >= 1,
                    ;
                }
                ((self.mantissa as u128 + unit - 1) / unit) as u64
            };
            if n < 0xffff_ffff {
                n as u32
            } else {
                u32::MAX
            }
        }
    }

    /// The nearest whole number, the larger one of two that are as near, cut off at the largest `u32`.
    pub fn half_up_u32(&self) -> (r: u32)
        requires
            self.within(2000),
        ensures
            r == if self.half_up() < u32::MAX {
                self.half_up()
            } else {
                u32::MAX as nat
            },
    {
        if self.exponent >= 0 {
            self.whole_u32()
        } else {
            let k: u32 = (-self.exponent) as u32;
            let n: u64 = if k >= 64 {
                proof {
                    lemma_far_below(self.mantissa as nat, k as nat);
                }
                0
            } else {
                let unit: u128 = power(k);
                proof {
                    lemma_big_powers();
                    lemma_pow2_grows(k as nat, 64);
                    let (m, u) = (self.mantissa as int, unit as int);
                    assert(0 <= (2 * m + u) / (2 * u) <= m + 1) by (nonlinear_arith)
                        requires
                            m >= 0,
                            u >= 1,
                    ;
                }
                ((2 * self.mantissa as u128 + unit) / (2 * unit)) as u64
            };
            if n < 0xffff_ffff {
                n as u32
            } else {
                u32::MAX
            }
        }
    }

    /// Whether the number is not less than a whole number.
    pub fn is_at_least(&self, n: u32) -> (r: bool)
        ensures
            r == self.at_least(n as nat),
    {
        if self.exponent >= 0 {
            self.whole_u32() >= n
        } else {
            let k: u32 = (-(self.exponent as i64)) as u32;
            if k >= 64 {
                proof {
                    lemma_big_powers();
                    lemma_pow2_grows(64, k as nat);
                    let (m, u, w) = (self.mantissa as int, pow2(k as nat) as int, n as int);
                    if n > 0 {
                        assert(w * u >= u) by (nonlinear_arith)
                            requires
                                w >= 1,
                                u > 0,
                        ;
                    } else {
                        assert(w * u == 0) by (nonlinear_arith)
                            requires
                                w == 0,
                        ;
                    }
                }
                n == 0
            } else {
                let unit: u128 = power(k);
                proof {
                    lemma_big_powers();
                    lemma_pow2_grows(k as nat, 64);
                    let (w, u) = (n as int, unit as int);
                    assert(0 <= w * u <= 0xffff_ffff * 0x1_0000_0000_0000_0000) by (nonlinear_arith)
                        requires
                            0 <= w <= 0xffff_ffff,
                            0 <= u <= 0x1_0000_0000_0000_0000,
                    ;
                }
                self.mantissa as u128 >= n as u128 * unit
            }
        }
    }
}

/// A mantissa is far below a large power of two.
proof fn lemma_far_below(m: nat, k: nat)
    requires
        m <= pow2(53),
        k >= 64,
    ensures
        2 * m + pow2(k) < 2 * pow2(k),
        m / pow2(k) == 0,
        (2 * m + pow2(k)) / (2 * pow2(k)) == 0,
        ((m + pow2(k) - 1) / (pow2(k) as int)) == if m > 0 {
            1int
        } else {
            0int
        },
        m < pow2(k),
{
    lemma_big_powers();
    lemma_pow2_grows(64, k);
    let u = pow2(k) as int;
    vstd::arithmetic::div_mod::lemma_basic_div(m as int, u);
    vstd::arithmetic::div_mod::lemma_basic_div(2 * m + u, 2 * u);
    if m > 0 {
        assert((m + u - 1) / u == 1) by (nonlinear_arith)
            requires
                u <= m + u - 1 < 2 * u,
                u > 0,
        ;
    } else {
        vstd::arithmetic::div_mod::lemma_basic_div(u - 1, u);
    }
}

/// A quotient is not above what is divided.
proof fn lemma_quotient_bound(m: nat, u: nat)
    requires
        u > 0,
    ensures
        m / u <= m,
{
    assert(m / u <= m) by (nonlinear_arith)
        requires
            u > 0,
            m >= 0,
    ;
}

/// A number with `p` binary digits is off by no more than one part in two to the power of `p`. Both
/// are compared as multiples of a small power of two.
pub proof fn lemma_rounded(n: nat, d: nat, p: nat, s: int)
    requires
        n > 0,
        d > 0,
        0 < p <= 53,
        digits(n) <= 107,
        digits(d) <= 64,
        s >= 0,
        s + rounded(n, d, p).exponent >= 0,
    ensures
        ({
            let r = rounded(n, d, p);
            let off = r.mantissa * pow2((s + r.exponent) as nat) * d * pow2(p);
            &&& off <= n * pow2(s as nat) * (pow2(p) + 1)
            &&& off >= n * pow2(s as nat) * (pow2(p) - 1)
            &&& r.mantissa > 0
            &&& r.mantissa <= pow2(53)
            &&& -117 <= r.exponent <= 107
        }),
{
    lemma_big_powers();
    lemma_shifted_bounds(n, d, p);
    lemma_exponent(n, d, p);
    lemma_pow2_grows(p, 53);
    lemma_pow2_pos((p - 1) as nat);
    lemma_pow2_unfold(p);
    let e = exponent_of(n, d, p);
    let (a, b) = shifted(n, d, e);
    let (pp, hp) = (pow2(p), pow2((p - 1) as nat));
    lemma_nearest(a, b, hp, pp);
    let m = nearest(a, b);
    let r = rounded(n, d, p);
    assert(r.mantissa == m && r.exponent == e);
    assert(m * b * pp <= a * (pp + 1)) by (nonlinear_arith)
        requires
            2 * (m * b) <= 2 * a + b,
            hp * b <= a,
            pp == 2 * hp,
            pp > 0,
    ;
    assert(m * b * pp >= a * (pp - 1)) by (nonlinear_arith)
        requires
            2 * a <= 2 * (m * b) + b,
            hp * b <= a,
            pp == 2 * hp,
            pp > 0,
    ;
    let (whole, unit) = (pow2((s + e) as nat), pow2(s as nat));
    lemma_pow2_pos((s + e) as nat);
    lemma_pow2_pos(s as nat);
    if e >= 0 {
        let k = pow2(e as nat);
        lemma_pow2_adds(s as nat, e as nat);
        assert(m * whole * d * pp == unit * (m * b * pp)) by (nonlinear_arith)
            requires
                whole == unit * k,
                b == d * k,
        ;
        assert(unit * (m * b * pp) <= unit * (a * (pp + 1))) by (nonlinear_arith)
            requires
                m * b * pp <= a * (pp + 1),
                unit > 0,
        ;
        assert(unit * (m * b * pp) >= unit * (a * (pp - 1))) by (nonlinear_arith)
            requires
                m * b * pp >= a * (pp - 1),
                unit > 0,
        ;
        assert(unit * (a * (pp + 1)) == n * unit * (pp + 1)) by (nonlinear_arith)
            requires
                a == n,
        ;
        assert(unit * (a * (pp - 1)) == n * unit * (pp - 1)) by (nonlinear_arith)
            requires
                a == n,
        ;
    } else {
        let k = pow2((-e) as nat);
        lemma_pow2_adds((s + e) as nat, (-e) as nat);
        assert(m * whole * d * pp == whole * (m * b * pp)) by (nonlinear_arith)
            requires
                b == d,
        ;
        assert(whole * (m * b * pp) <= whole * (a * (pp + 1))) by (nonlinear_arith)
            requires
                m * b * pp <= a * (pp + 1),
                whole > 0,
        ;
        assert(whole * (m * b * pp) >= whole * (a * (pp - 1))) by (nonlinear_arith)
            requires
                m * b * pp >= a * (pp - 1),
                whole > 0,
        ;
        assert(whole * (a * (pp + 1)) == n * unit * (pp + 1)) by (nonlinear_arith)
            requires
                a == n * k,
                unit == whole * k,
        ;
        assert(whole * (a * (pp - 1)) == n * unit * (pp - 1)) by (nonlinear_arith)
            requires
                a == n * k,
                unit == whole * k,
        ;
    }
}

/// A whole number in single precision.
pub open spec fn single(n: int) -> int {
    if n < 0 {
        -(Float::of((-n) as nat, 24).floor())
    } else {
        Float::of(n as nat, 24).floor() as int
    }
}

/// A whole number in single precision.
pub fn to_single(n: i64) -> (r: i64)
    requires
        -0x100_0000_0000 <= n <= 0x100_0000_0000,
    ensures
        r == single(n as int),
        n >= 0 ==> 0 <= r <= 2 * n,
        n < 0 ==> 2 * n <= r <= 0,
{
    let magnitude: u64 = if n < 0 {
        (-n) as u64
    } else {
        n as u64
    };
    let f = Float::from_whole(magnitude, SINGLE);
    proof {
        lemma_big_powers();
        vstd::arithmetic::power2::lemma2_to64();
        vstd::arithmetic::power2::lemma2_to64_rest();
        lemma_pow2_grows(24, 53);
        lemma_digits_bound(magnitude as nat, 41);
        if magnitude > 0 {
            lemma_digits(magnitude as nat);
            assert(digits(1) == 1) by {
                reveal_with_fuel(digits, 2);
            }
            lemma_exponent(magnitude as nat, 1, 24);
            let e = exponent_of(magnitude as nat, 1, 24);
            let (a, b) = shifted(magnitude as nat, 1, e);
            lemma_nearest(a, b, pow2(23), pow2(24));
            assert(f.mantissa <= pow2(24));
            assert(-24 <= f.exponent <= 17);
            lemma_of(magnitude as nat, 24);
            lemma_floor(f);
            lemma_pow2_pos(2000);
            let (w, k, t, whole) = (f.worth(), f.floor(), unit(), magnitude as nat);
            assert(k <= 2 * whole) by (nonlinear_arith)
                requires
                    k * t <= w,
                    w * 0x100_0000 <= whole * t * 0x100_0001,
                    t > 0,
            ;
        } else {
            assert(f.floor() == 0) by {
                assert(0 * pow2(0) == 0);
            }
        }
    }
    let value: u64 = if f.exponent >= 0 {
        let unit: u128 = power(f.exponent as u32);
        proof {
            lemma_pow2_grows(f.exponent as nat, 17);
            let (m, u) = (f.mantissa as int, unit as int);
            assert(0 <= m * u <= 0x100_0000 * 0x2_0000) by (nonlinear_arith)
                requires
                    0 <= m <= 0x100_0000,
                    0 <= u <= 0x2_0000,
            ;
        }
        (f.mantissa as u128 * unit) as u64
    } else {
        let unit: u128 = power((-f.exponent) as u32);
        proof {
            lemma_pow2_pos((-f.exponent) as nat);
            lemma_quotient_bound(f.mantissa as nat, unit as nat);
        }
        (f.mantissa as u128 / unit) as u64
    };
    if n < 0 {
        -(value as i64)
    } else {
        value as i64
    }
}

impl Float {
    /// The number as a multiple of a power of two that is smaller than all that come up.
    pub open spec fn worth(self) -> nat {
        self.mantissa as nat * pow2((self.exponent + 2000) as nat)
    }
}

/// What the number one is worth.
pub open spec fn unit() -> nat {
    pow2(2000)
}

/// A whole number with `p` binary digits is off by no more than one part in two to the power of `p`.
pub proof fn lemma_of(n: nat, p: nat)
    requires
        0 < n < pow2(64),
        0 < p <= 53,
    ensures
        ({
            let f = Float::of(n, p);
            &&& f.mantissa > 0
            &&& f.within(117)
            &&& f.worth() * pow2(p) <= n * unit() * (pow2(p) + 1)
            &&& f.worth() * pow2(p) >= n * unit() * (pow2(p) - 1)
        }),
{
    lemma_big_powers();
    lemma_digits_bound(n, 64);
    lemma_digits_bound(1, 64);
    lemma_shifted_bounds(n, 1, p);
    let f = Float::of(n, p);
    assert(-117 <= f.exponent <= 107);
    lemma_rounded(n, 1, p, 2000);
    let w = f.worth();
    assert(w * 1 == w);
}

/// A whole number of no more than `p` binary digits is not rounded.
pub proof fn lemma_exact(n: nat, p: nat)
    requires
        0 < n < pow2(p),
        0 < p <= 53,
    ensures
        Float::of(n, p).worth() == n * unit(),
{
    lemma_big_powers();
    lemma_digits_bound(n, p);
    lemma_digits(n);
    assert(digits(1) == 1 + digits(0));
    lemma_exponent(n, 1, p);
    lemma_pow2_grows(p, 53);
    let e = exponent_of(n, 1, p);
    let (a, b) = shifted(n, 1, e);
    assert(-53 <= e <= 0);
    assert(pow2(0) == 1);
    assert(b == 1);
    assert(a == n * pow2((-e) as nat)) by (nonlinear_arith)
        requires
            a == n * pow2((-e) as nat) || (a == n && pow2((-e) as nat) == 1),
    ;
    assert(nearest(a, b) == a);
    assert(pow2(p) * b == pow2(p)) by (nonlinear_arith)
        requires
            b == 1,
    ;
    let f = Float::of(n, p);
    assert(f.mantissa == a && f.exponent == e);
    let (part, rest) = (pow2((-e) as nat), pow2((e + 2000) as nat));
    lemma_pow2_adds((e + 2000) as nat, (-e) as nat);
    assert(a * rest == n * unit()) by (nonlinear_arith)
        requires
            a == n * part,
            unit() == rest * part,
    ;
}

/// A quotient is off by no more than one part in two to the power of `p`.
pub proof fn lemma_over(x: Float, y: Float, p: nat)
    requires
        x.mantissa > 0,
        y.mantissa > 0,
        x.within(900),
        y.within(900),
        0 < p <= 53,
    ensures
        ({
            let r = x.over(y, p);
            &&& r.mantissa > 0
            &&& r.mantissa <= pow2(53)
            &&& x.exponent - y.exponent - 117 <= r.exponent <= x.exponent - y.exponent + 107
            &&& r.worth() * y.worth() * pow2(p) <= x.worth() * unit() * (pow2(p) + 1)
            &&& r.worth() * y.worth() * pow2(p) >= x.worth() * unit() * (pow2(p) - 1)
        }),
{
    lemma_big_powers();
    let (n, d) = (x.mantissa as nat, y.mantissa as nat);
    lemma_digits_bound(n, 64);
    lemma_digits_bound(d, 64);
    lemma_shifted_bounds(n, d, p);
    let q = rounded(n, d, p);
    assert(-117 <= q.exponent <= 107);
    let r = x.over(y, p);
    let s = x.exponent - y.exponent + 2000;
    lemma_rounded(n, d, p, s);
    let m = r.mantissa as nat;
    let (pr, ps, py, px) = (
        pow2((r.exponent + 2000) as nat),
        pow2(s as nat),
        pow2((y.exponent + 2000) as nat),
        pow2((x.exponent + 2000) as nat),
    );
    assert(s + q.exponent == r.exponent + 2000);
    lemma_pow2_adds(s as nat, (y.exponent + 2000) as nat);
    lemma_pow2_adds((x.exponent + 2000) as nat, 2000);
    assert(s + (y.exponent + 2000) == (x.exponent + 2000) + 2000);
    assert(ps * py == px * unit());
    lemma_pow2_pos((y.exponent + 2000) as nat);
    let (u, t) = (pow2(p), unit());
    assert((m * pr) * (d * py) * u == (m * pr * d * u) * py) by (nonlinear_arith);
    assert((m * pr * d * u) * py <= (n * ps * (u + 1)) * py) by (nonlinear_arith)
        requires
            m * pr * d * u <= n * ps * (u + 1),
            py > 0,
    ;
    assert((m * pr * d * u) * py >= (n * ps * (u - 1)) * py) by (nonlinear_arith)
        requires
            m * pr * d * u >= n * ps * (u - 1),
            py > 0,
    ;
    assert((n * ps * (u + 1)) * py == (n * px) * t * (u + 1)) by (nonlinear_arith)
        requires
            ps * py == px * t,
    ;
    assert((n * ps * (u - 1)) * py == (n * px) * t * (u - 1)) by (nonlinear_arith)
        requires
            ps * py == px * t,
    ;
}

/// A product is off by no more than one part in two to the power of `p`.
pub proof fn lemma_times(x: Float, y: Float, p: nat)
    requires
        x.mantissa > 0,
        y.mantissa > 0,
        x.within(600),
        y.within(600),
        0 < p <= 53,
    ensures
        ({
            let r = x.times(y, p);
            &&& r.mantissa > 0
            &&& r.mantissa <= pow2(53)
            &&& x.exponent + y.exponent - 117 <= r.exponent <= x.exponent + y.exponent + 107
            &&& r.worth() * unit() * pow2(p) <= x.worth() * y.worth() * (pow2(p) + 1)
            &&& r.worth() * unit() * pow2(p) >= x.worth() * y.worth() * (pow2(p) - 1)
        }),
{
    lemma_big_powers();
    let (a, b) = (x.mantissa as nat, y.mantissa as nat);
    let n = a * b;
    assert(0 < n <= 0x20_0000_0000_0000 * 0x20_0000_0000_0000) by (nonlinear_arith)
        requires
            n == a * b,
            0 < a <= 0x20_0000_0000_0000,
            0 < b <= 0x20_0000_0000_0000,
    ;
    assert(0x20_0000_0000_0000 * 0x20_0000_0000_0000 < 0x800_0000_0000_0000_0000_0000_0000int);
    lemma_digits_bound(n, 107);
    lemma_digits_bound(1, 64);
    lemma_shifted_bounds(n, 1, p);
    let q = rounded(n, 1, p);
    assert(-117 <= q.exponent <= 107);
    let r = x.times(y, p);
    let s = x.exponent + y.exponent + 2000;
    lemma_rounded(n, 1, p, s);
    let m = r.mantissa as nat;
    let (pr, ps, py, px) = (
        pow2((r.exponent + 2000) as nat),
        pow2(s as nat),
        pow2((y.exponent + 2000) as nat),
        pow2((x.exponent + 2000) as nat),
    );
    assert(s + q.exponent == r.exponent + 2000);
    lemma_pow2_adds(s as nat, 2000);
    lemma_pow2_adds((x.exponent + 2000) as nat, (y.exponent + 2000) as nat);
    assert(s + 2000 == (x.exponent + 2000) + (y.exponent + 2000));
    let (u, t) = (pow2(p), unit());
    assert(ps * t == px * py);
    lemma_pow2_pos(2000);
    assert((m * pr) * t * u == (m * pr * 1 * u) * t) by (nonlinear_arith);
    assert((m * pr * 1 * u) * t <= (n * ps * (u + 1)) * t) by (nonlinear_arith)
        requires
            m * pr * 1 * u <= n * ps * (u + 1),
            t > 0,
    ;
    assert((m * pr * 1 * u) * t >= (n * ps * (u - 1)) * t) by (nonlinear_arith)
        requires
            m * pr * 1 * u >= n * ps * (u - 1),
            t > 0,
    ;
    assert((n * ps * (u + 1)) * t == (a * px) * (b * py) * (u + 1)) by (nonlinear_arith)
        requires
            n == a * b,
            ps * t == px * py,
    ;
    assert((n * ps * (u - 1)) * t == (a * px) * (b * py) * (u - 1)) by (nonlinear_arith)
        requires
            n == a * b,
            ps * t == px * py,
    ;
}

/// What a number is worth tells how it compares with whole numbers.
pub proof fn lemma_worth(f: Float, n: nat)
    requires
        f.within(1900),
    ensures
        f.at_least(n) <==> f.worth() >= n * unit(),
        2 * f.worth() < (2 * n + 1) * unit() ==> f.half_up() <= n,
{
    let t = unit();
    let m = f.mantissa as nat;
    lemma_pow2_pos(2000);
    if f.exponent >= 0 {
        let k = pow2(f.exponent as nat);
        lemma_pow2_adds(f.exponent as nat, 2000);
        let v = m * k;
        assert(f.worth() == v * t) by (nonlinear_arith)
            requires
                f.worth() == m * (k * t),
                v == m * k,
        ;
        assert(v >= n <==> v * t >= n * t) by (nonlinear_arith)
            requires
                t > 0,
        ;
        assert(2 * (v * t) < (2 * n + 1) * t ==> v <= n) by (nonlinear_arith)
            requires
                t > 0,
        ;
    } else {
        let k = pow2((-f.exponent) as nat);
        let w = pow2((f.exponent + 2000) as nat);
        lemma_pow2_adds((-f.exponent) as nat, (f.exponent + 2000) as nat);
        lemma_pow2_pos((-f.exponent) as nat);
        lemma_pow2_pos((f.exponent + 2000) as nat);
        assert(t == k * w);
        assert(m >= n * k <==> m * w >= n * t) by (nonlinear_arith)
            requires
                t == k * w,
                w > 0,
        ;
        assert(2 * (m * w) < (2 * n + 1) * t ==> 2 * m < (2 * n + 1) * k) by (nonlinear_arith)
            requires
                t == k * w,
                w > 0,
        ;
        if 2 * m < (2 * n + 1) * k {
            assert((2 * m + k) / (2 * k) <= n) by (nonlinear_arith)
                requires
                    2 * m < (2 * n + 1) * k,
                    k > 0,
                    m >= 0,
            ;
        }
    }
}

/// The whole part of a number is not worth more than the number.
pub proof fn lemma_floor(f: Float)
    requires
        f.within(1900),
    ensures
        f.floor() * unit() <= f.worth(),
{
    let t = unit();
    let m = f.mantissa as nat;
    if f.exponent >= 0 {
        let k = pow2(f.exponent as nat);
        lemma_pow2_adds(f.exponent as nat, 2000);
        assert(m * k * t == m * (k * t)) by (nonlinear_arith);
    } else {
        let k = pow2((-f.exponent) as nat);
        let w = pow2((f.exponent + 2000) as nat);
        lemma_pow2_adds((-f.exponent) as nat, (f.exponent + 2000) as nat);
        lemma_pow2_pos((-f.exponent) as nat);
        let n = m / k;
        vstd::arithmetic::div_mod::lemma_fundamental_div_mod(m as int, k as int);
        assert(n * t <= m * w) by (nonlinear_arith)
            requires
                t == k * w,
                m >= k * n,
                w >= 0,
        ;
    }
}

/// A whole number with `p` binary digits is a whole number.
pub proof fn lemma_whole(n: nat, p: nat)
    requires
        0 < n < pow2(64),
        0 < p <= 53,
    ensures
        Float::of(n, p).floor() * unit() == Float::of(n, p).worth(),
{
    lemma_of(n, p);
    lemma_big_powers();
    let f = Float::of(n, p);
    let t = unit();
    let m = f.mantissa as nat;
    lemma_digits_bound(n, 64);
    lemma_digits_bound(1, 64);
    lemma_shifted_bounds(n, 1, p);
    lemma_exponent(n, 1, p);
    let e = exponent_of(n, 1, p);
    let (a, b) = shifted(n, 1, e);
    lemma_pow2_grows(p, 53);
    lemma_nearest(a, b, pow2((p - 1) as nat), pow2(p));
    assert(f.exponent == e && m == nearest(a, b));
    if e >= 0 {
        let k = pow2(e as nat);
        lemma_pow2_adds(e as nat, 2000);
        assert(m * k * t == m * (k * t)) by (nonlinear_arith);
    } else {
        let k = pow2((-e) as nat);
        let w = pow2((e + 2000) as nat);
        lemma_pow2_adds((-e) as nat, (e + 2000) as nat);
        lemma_pow2_pos((-e) as nat);
        assert(b == 1);
        assert(m == a);
        vstd::arithmetic::div_mod::lemma_div_multiples_vanish(n as int, k as int);
        assert(k * n == n * k) by (nonlinear_arith);
        assert(m / k == n);
        assert(n * t == m * w) by (nonlinear_arith)
            requires
                t == k * w,
                m == n * k,
        ;
    }
}

/// A whole number of up to twenty-four binary digits is the same in single precision.
pub proof fn lemma_single_exact(n: int)
    requires
        -0x100_0000 < n < 0x100_0000,
    ensures
        single(n) == n,
{
    vstd::arithmetic::power2::lemma2_to64();
    vstd::arithmetic::power2::lemma2_to64_rest();
    let m: nat = if n < 0 {
        (-n) as nat
    } else {
        n as nat
    };
    if m > 0 {
        lemma_exact(m, 24);
        lemma_whole(m, 24);
        let f = Float::of(m, 24).floor();
        let t = unit();
        vstd::arithmetic::power2::lemma_pow2_pos(2000);
        assert(f == m) by (nonlinear_arith)
            requires
                f * t == m * t,
                t > 0,
        ;
    } else {
        assert(Float::of(0, 24).floor() == 0);
    }
}

/// A number between a power of two and the next one has as many digits as that tells.
proof fn lemma_digits_are(n: nat, k: nat)
    requires
        k > 0,
        pow2((k - 1) as nat) <= n < pow2(k),
    ensures
        digits(n) == k,
{
    lemma_pow2_pos((k - 1) as nat);
    lemma_digits_bound(n, k);
    lemma_digits(n);
    if digits(n) < k {
        lemma_pow2_grows(digits(n), (k - 1) as nat);
    }
}

/// A number over itself is one.
proof fn lemma_over_itself(f: Float)
    requires
        0 < f.mantissa,
        f.within(117),
    ensures
        f.over(f, 53) == (Float { mantissa: 0x10_0000_0000_0000, exponent: -52i32 }),
{
    lemma_big_powers();
    let m = f.mantissa as nat;
    assert(exponent_of(m, m, 53) == -52) by {
        let (a, b) = shifted(m, m, -53);
        assert(a == m * pow2(53) && b == m);
        assert(!(a < pow2(53) * b)) by (nonlinear_arith)
            requires
                a == m * pow2(53),
                b == m,
        ;
    }
    let (a, b) = shifted(m, m, -52);
    assert(a == m * pow2(52) && b == m);
    assert(a == pow2(52) * m + 0) by (nonlinear_arith)
        requires
            a == m * pow2(52),
    ;
    vstd::arithmetic::div_mod::lemma_fundamental_div_mod_converse(
        a as int,
        b as int,
        pow2(52) as int,
        0,
    );
    assert(nearest(a, b) == pow2(52));
}

/// One times a number of full length is the number.
proof fn lemma_times_one(f: Float)
    requires
        0x10_0000_0000_0000 <= f.mantissa < 0x20_0000_0000_0000,
        f.within(117),
    ensures
        f.times(Float { mantissa: 0x10_0000_0000_0000, exponent: -52i32 }, 53) == f,
{
    lemma_big_powers();
    vstd::arithmetic::power2::lemma2_to64();
    vstd::arithmetic::power2::lemma2_to64_rest();
    let m = f.mantissa as nat;
    let one: nat = 0x10_0000_0000_0000;
    let n = m * one;
    lemma_pow2_adds(52, 52);
    lemma_pow2_adds(53, 52);
    lemma_pow2_adds(53, 51);
    assert(pow2(104) <= n < pow2(105)) by (nonlinear_arith)
        requires
            n == m * one,
            one == pow2(52),
            pow2(52) <= m < pow2(53),
            pow2(104) == pow2(52) * pow2(52),
            pow2(105) == pow2(53) * pow2(52),
            pow2(52) > 0,
    ;
    lemma_digits_are(n, 105);
    assert(digits(1) == 1) by {
        lemma_digits_are(1, 1);
    }
    assert(exponent_of(n, 1, 53) == 52) by {
        let (a, b) = shifted(n, 1, 51);
        assert(a == n && b == 1 * pow2(51));
        assert(!(a < pow2(53) * b));
    }
    let (a, b) = shifted(n, 1, 52);
    assert(a == n && b == 1 * pow2(52));
    vstd::arithmetic::div_mod::lemma_fundamental_div_mod_converse(a as int, b as int, m as int, 0);
    assert(nearest(a, b) == m);
}

/// A whole number has a mantissa of full length, and is itself after rounding down or up.
proof fn lemma_whole_number(n: nat)
    requires
        0 < n < 0x1_0000_0000,
    ensures
        ({
            let f = Float::of(n, 53);
            &&& 0x10_0000_0000_0000 <= f.mantissa < 0x20_0000_0000_0000
            &&& f.within(117)
            &&& f.floor() == n
            &&& f.ceiling() == n
        }),
{
    lemma_big_powers();
    vstd::arithmetic::power2::lemma2_to64();
    vstd::arithmetic::power2::lemma2_to64_rest();
    lemma_of(n, 53);
    lemma_exponent(n, 1, 53);
    lemma_digits_bound(n, 32);
    lemma_digits(n);
    assert(digits(1) == 1) by {
        lemma_digits_are(1, 1);
    }
    let e = exponent_of(n, 1, 53);
    assert(-53 <= e < 0);
    let (a, b) = shifted(n, 1, e);
    let p = pow2((-e) as nat);
    lemma_pow2_pos((-e) as nat);
    assert(a == n * p && b == 1);
    assert(a / 1 == a && a % 1 == 0) by (nonlinear_arith);
    assert(nearest(a, b) == a);
    let f = Float::of(n, 53);
    assert(f.mantissa == a && f.exponent == e);
    assert(pow2(52) * b == pow2(52) && pow2(53) * b == pow2(53)) by (nonlinear_arith)
        requires
            b == 1,
    ;
    vstd::arithmetic::div_mod::lemma_fundamental_div_mod_converse(a as int, p as int, n as int, 0);
    vstd::arithmetic::div_mod::lemma_fundamental_div_mod_converse(
        a + p - 1,
        p as int,
        n as int,
        p - 1,
    );
    assert(f.floor() == a / p);
    assert(f.ceiling() == n);
}

/// A whole number multiplied with the quotient of a size and the same size stays what it is.
pub proof fn lemma_same_size_keeps(v: nat, size: nat)
    requires
        v < 0x1_0000_0000,
        0 < size < 0x1_0000_0000,
    ensures
        ({
            let f = Float::of(v, 53).times(Float::of(size, 53).over(Float::of(size, 53), 53), 53);
            f.floor() == v && f.ceiling() == v
        }),
{
    lemma_big_powers();
    lemma_whole_number(size);
    lemma_over_itself(Float::of(size, 53));
    if v > 0 {
        lemma_whole_number(v);
        lemma_times_one(Float::of(v, 53));
    } else {
        let f = Float::of(0, 53).times(Float { mantissa: 0x10_0000_0000_0000, exponent: -52i32 }, 53);
        assert(0 * 0x10_0000_0000_0000 == 0);
        assert(f.mantissa == 0 && f.exponent == -52);
        assert(0nat / 0x10_0000_0000_0000nat == 0);
        assert((0 + 0x10_0000_0000_0000 - 1) / 0x10_0000_0000_0000int == 0);
    }
}

} // verus!
