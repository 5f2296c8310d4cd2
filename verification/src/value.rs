//! The numeric sample type shared by every indicator.
//!
//! A [`TAValue`] is a fixed-point decimal: a signed integer count of
//! `1 / SCALE` units, so every sample carries exactly twelve decimal
//! places. One raw encoding, [`NAN_RAW`], stands for the undefined value
//! ("NaN"): it is what a division by zero, an out-of-range result or an
//! undefined operand produces, and it absorbs through every operation.
//! With this model every kernel of the library is a total, deterministic
//! function, and the batch/incremental agreement of each indicator is an
//! exact identity rather than an approximate one.

use vstd::arithmetic::div_mod::{
    lemma_div_decreases, lemma_div_is_ordered, lemma_div_nonincreasing, lemma_div_pos_is_pos,
    lemma_fundamental_div_mod, lemma_fundamental_div_mod_converse,
};
use vstd::prelude::*;

verus! {

/// Raw units per 1.0: values carry twelve decimal places.
pub const SCALE: i128 = 1_000_000_000_000;

/// Largest finite magnitude, in raw units (so the largest finite value
/// is `RAW_LIMIT / SCALE`, one hundred trillion).
pub const RAW_LIMIT: i128 = 100_000_000_000_000_000_000_000_000;

/// The raw encoding of the undefined value.
pub const NAN_RAW: i128 = RAW_LIMIT + 1;

/// A fixed-point decimal sample: either a finite value in
/// `[-RAW_LIMIT, RAW_LIMIT]` raw units, or the undefined value `NAN_RAW`.
#[derive(Clone, Copy, Debug)]
pub struct TAValue {
    raw: i128,
}

/// The spec-level undefined value.
pub open spec fn nan_v() -> int {
    NAN_RAW as int
}

/// The spec-level finite magnitude bound.
pub open spec fn lim() -> int {
    RAW_LIMIT as int
}

/// The spec-level scaling factor.
pub open spec fn sc() -> int {
    SCALE as int
}

/// Whether a spec-level value is the undefined value.
pub open spec fn is_nan_v(a: int) -> bool {
    a == nan_v()
}

/// Whether a spec-level value is finite.
pub open spec fn finite_v(a: int) -> bool {
    -lim() <= a <= lim()
}

/// Whether a spec-level value is a well-formed sample: finite or undefined.
pub open spec fn ok_v(a: int) -> bool {
    finite_v(a) || a == nan_v()
}

/// Clamp a mathematical result into the sample domain: out-of-range
/// results become the undefined value.
pub open spec fn norm_v(p: int) -> int {
    if -lim() <= p <= lim() {
        p
    } else {
        nan_v()
    }
}

/// Division of `p` by a positive `q`, rounded to the nearest integer,
/// ties away from zero.
pub open spec fn round_div(p: int, q: int) -> int {
    if p >= 0 {
        (2 * p + q) / (2 * q)
    } else {
        -((2 * (-p) + q) / (2 * q))
    }
}

/// Addition on samples: undefined absorbs, overflow is undefined.
pub open spec fn add_v(a: int, b: int) -> int {
    if is_nan_v(a) || is_nan_v(b) {
        nan_v()
    } else {
        norm_v(a + b)
    }
}

/// Subtraction on samples: undefined absorbs, overflow is undefined.
pub open spec fn sub_v(a: int, b: int) -> int {
    if is_nan_v(a) || is_nan_v(b) {
        nan_v()
    } else {
        norm_v(a - b)
    }
}

/// Multiplication on samples: the exact product, rescaled with rounding
/// to the nearest unit; undefined absorbs, overflow is undefined.
pub open spec fn mul_v(a: int, b: int) -> int {
    if is_nan_v(a) || is_nan_v(b) {
        nan_v()
    } else {
        norm_v(round_div(a * b, sc()))
    }
}

/// Rounded division for a divisor of either sign (the divisor must not
/// be zero for the result to be meaningful).
pub open spec fn rdiv_signed(p: int, q: int) -> int {
    if q > 0 {
        round_div(p, q)
    } else {
        round_div(-p, -q)
    }
}

/// Division on samples: the exact ratio, scaled with rounding to the
/// nearest unit; undefined absorbs, and a zero divisor or an overflow
/// yields the undefined value.
pub open spec fn div_v(a: int, b: int) -> int {
    if is_nan_v(a) || is_nan_v(b) || b == 0 {
        nan_v()
    } else {
        norm_v(rdiv_signed(a * sc(), b))
    }
}

/// Whether `r` is the integer square root (rounded down) of `n`.
pub open spec fn is_isqrt(n: int, r: int) -> bool {
    0 <= r && r * r <= n && n < (r + 1) * (r + 1)
}

/// The integer square root, rounded down.
pub open spec fn isqrt_v(n: int) -> int {
    choose|r: int| is_isqrt(n, r)
}

/// Square root on samples: undefined absorbs, a negative operand is
/// undefined; otherwise the scaled root, rounded down to a unit.
pub open spec fn sqrt_v(a: int) -> int {
    if is_nan_v(a) || a < 0 {
        nan_v()
    } else {
        isqrt_v(a * sc())
    }
}

/// The larger of two samples; undefined absorbs.
pub open spec fn max_v(a: int, b: int) -> int {
    if is_nan_v(a) || is_nan_v(b) {
        nan_v()
    } else if a >= b {
        a
    } else {
        b
    }
}

/// The smaller of two samples; undefined absorbs.
pub open spec fn min_v(a: int, b: int) -> int {
    if is_nan_v(a) || is_nan_v(b) {
        nan_v()
    } else if a <= b {
        a
    } else {
        b
    }
}

/// The sample standing for a whole number `n` (a period length); a count
/// too large for the finite range is undefined.
pub open spec fn from_n_v(n: int) -> int {
    if 0 <= n && n * sc() <= lim() {
        n * sc()
    } else {
        nan_v()
    }
}

/// Rounded division of a nonnegative dividend by a positive divisor:
/// the quotient nearest to the exact ratio, ties rounded up.
fn round_div_pos(p: i128, q: i128) -> (r: i128)
    requires
        0 <= p,
        0 < q <= 2 * RAW_LIMIT,
    ensures
        r as int == round_div(p as int, q as int),
        0 <= r <= p,
{
    let t = p / q;
    let rem = p % q;
    proof {
        let pi = p as int;
        let qi = q as int;
        lemma_fundamental_div_mod(pi, qi);
        lemma_div_pos_is_pos(pi, qi);
        lemma_div_nonincreasing(pi, qi);
        assert(pi == qi * (pi / qi) + pi % qi);
        assert(0 <= pi % qi < qi);
    }
    if 2 * rem >= q {
        proof {
            let pi = p as int;
            let qi = q as int;
            let ti = t as int;
            let remi = rem as int;
            // 2p + q == (t + 1) * (2q) + (2 rem - q), with the remainder in [0, 2q)
            assert(2 * pi + qi == (ti + 1) * (2 * qi) + (2 * remi - qi)) by (nonlinear_arith)
                requires
                    pi == qi * ti + remi,
            ;
            lemma_fundamental_div_mod_converse(2 * pi + qi, 2 * qi, ti + 1, 2 * remi - qi);
            // t + 1 <= p: from p == q*t + rem with q >= 2 (q == 1 forces rem == 0)
            assert(qi >= 2) by {
                if qi == 1 {
                    assert(remi == 0);
                }
            }
            assert(pi >= 2 * ti + 1) by (nonlinear_arith)
                requires
                    pi == qi * ti + remi,
                    qi >= 2,
                    2 * remi >= qi,
                    ti >= 0,
            ;
        }
        t + 1
    } else {
        proof {
            let pi = p as int;
            let qi = q as int;
            let ti = t as int;
            let remi = rem as int;
            assert(2 * pi + qi == ti * (2 * qi) + (2 * remi + qi)) by (nonlinear_arith)
                requires
                    pi == qi * ti + remi,
            ;
            lemma_fundamental_div_mod_converse(2 * pi + qi, 2 * qi, ti, 2 * remi + qi);
        }
        t
    }
}

/// Rounded division of any dividend above `i128::MIN` by a positive divisor.
fn round_to_nearest(p: i128, q: i128) -> (r: i128)
    requires
        -i128::MAX <= p,
        0 < q <= 2 * RAW_LIMIT,
    ensures
        r as int == round_div(p as int, q as int),
        -i128::MAX <= r <= i128::MAX,
{
    if p >= 0 {
        round_div_pos(p, q)
    } else {
        let m = round_div_pos(-p, q);
        -m
    }
}

/// A dividend whose magnitude exceeds `(lim() + 1) * q` rounds to a
/// quotient whose magnitude exceeds `lim()`, so rescaling it yields the
/// undefined value.
proof fn lemma_round_div_big(p: int, q: int)
    requires
        0 < q,
        p > (lim() + 1) * q || p < -((lim() + 1) * q),
    ensures
        round_div(p, q) > lim() || round_div(p, q) < -lim(),
{
    assert(((2 * q) * (lim() + 1)) / (2 * q) == lim() + 1) by {
        lemma_fundamental_div_mod_converse((2 * q) * (lim() + 1), 2 * q, lim() + 1, 0);
    }
    if p > (lim() + 1) * q {
        assert(2 * p + q >= (2 * q) * (lim() + 1)) by (nonlinear_arith)
            requires
                p > (lim() + 1) * q,
                0 < q,
        ;
        lemma_div_is_ordered((2 * q) * (lim() + 1), 2 * p + q, 2 * q);
    } else {
        let m = -p;
        assert(2 * m + q >= (2 * q) * (lim() + 1)) by (nonlinear_arith)
            requires
                m > (lim() + 1) * q,
                0 < q,
        ;
        lemma_div_is_ordered((2 * q) * (lim() + 1), 2 * m + q, 2 * q);
    }
}

/// Two integer square roots of the same number agree.
proof fn lemma_isqrt_unique(n: int, r1: int, r2: int)
    requires
        is_isqrt(n, r1),
        is_isqrt(n, r2),
    ensures
        r1 == r2,
{
    assert(!(r1 < r2) && !(r2 < r1)) by (nonlinear_arith)
        requires
            0 <= r1,
            0 <= r2,
            r1 * r1 <= n,
            n < (r1 + 1) * (r1 + 1),
            r2 * r2 <= n,
            n < (r2 + 1) * (r2 + 1),
    ;
}

/// The integer square root by bisection.
fn isqrt_exec(n: i128) -> (r: i128)
    requires
        0 <= n,
        n as int <= lim() * sc(),
    ensures
        is_isqrt(n as int, r as int),
        r as int == isqrt_v(n as int),
{
    let mut lo: i128 = 0;
    let mut hi: i128 = 10_000_000_000_000_000_001;
    proof {
        assert((hi as int) * (hi as int) > lim() * sc()) by (nonlinear_arith)
            requires
                hi == 10_000_000_000_000_000_001i128,
        ;
    }
    while lo + 1 < hi
        invariant
            0 <= lo < hi <= 10_000_000_000_000_000_001i128,
            (lo as int) * (lo as int) <= n as int,
            (n as int) < (hi as int) * (hi as int),
        decreases hi - lo,
    {
        let mid = lo + (hi - lo) / 2;
        proof {
            lemma_div_is_ordered(2, (hi - lo) as int, 2);
            lemma_div_decreases((hi - lo) as int, 2);
            assert(lo < mid < hi);
            assert((mid as int) * (mid as int) <= i128::MAX as int) by (nonlinear_arith)
                requires
                    0 <= mid as int <= 10_000_000_000_000_000_001int,
            ;
        }
        if mid * mid <= n {
            lo = mid;
        } else {
            hi = mid;
        }
    }
    proof {
        assert(is_isqrt(n as int, lo as int));
        assert(exists|r: int| is_isqrt(n as int, r));
        lemma_isqrt_unique(n as int, lo as int, isqrt_v(n as int));
    }
    lo
}

impl View for TAValue {
    type V = int;

    closed spec fn view(&self) -> int {
        self.raw as int
    }
}

impl TAValue {
    /// The undefined value.
    pub fn nan() -> (r: TAValue)
        ensures
            r@ == nan_v(),
    {
        TAValue { raw: NAN_RAW }
    }

    /// The sample zero.
    pub fn zero() -> (r: TAValue)
        ensures
            r@ == 0,
    {
        TAValue { raw: 0 }
    }

    /// Build a sample from a raw unit count; anything out of the finite
    /// range becomes the undefined value.
    pub fn from_raw(raw: i128) -> (r: TAValue)
        ensures
            r@ == norm_v(raw as int),
            ok_v(r@),
    {
        if -RAW_LIMIT <= raw && raw <= RAW_LIMIT {
            TAValue { raw }
        } else {
            TAValue { raw: NAN_RAW }
        }
    }

    /// The raw unit count behind this sample.
    pub fn raw(self) -> (r: i128)
        ensures
            r as int == self@,
    {
        self.raw
    }

    /// Whether this sample is the undefined value.
    pub fn is_nan(self) -> (b: bool)
        ensures
            b == is_nan_v(self@),
    {
        self.raw == NAN_RAW
    }

    /// Sample addition.
    pub fn add(self, other: TAValue) -> (r: TAValue)
        requires
            ok_v(self@),
            ok_v(other@),
        ensures
            r@ == add_v(self@, other@),
            ok_v(r@),
    {
        if self.raw == NAN_RAW || other.raw == NAN_RAW {
            TAValue { raw: NAN_RAW }
        } else {
            let s = self.raw + other.raw;
            if -RAW_LIMIT <= s && s <= RAW_LIMIT {
                TAValue { raw: s }
            } else {
                TAValue { raw: NAN_RAW }
            }
        }
    }

    /// Sample multiplication.
    pub fn mul(self, other: TAValue) -> (r: TAValue)
        requires
            ok_v(self@),
            ok_v(other@),
        ensures
            r@ == mul_v(self@, other@),
            ok_v(r@),
    {
        if self.raw == NAN_RAW || other.raw == NAN_RAW {
            return TAValue { raw: NAN_RAW };
        }
        match self.raw.checked_mul(other.raw) {
            Some(p) => {
                if p == i128::MIN {
                    proof {
                        assert((p as int) < -((lim() + 1) * sc())) by (nonlinear_arith)
                            requires
                                p == i128::MIN,
                        ;
                        lemma_round_div_big(p as int, sc());
                    }
                    TAValue { raw: NAN_RAW }
                } else {
                    let s = round_to_nearest(p, SCALE);
                    if -RAW_LIMIT <= s && s <= RAW_LIMIT {
                        TAValue { raw: s }
                    } else {
                        TAValue { raw: NAN_RAW }
                    }
                }
            },
            None => {
                proof {
                    let p = self@ * other@;
                    assert((i128::MAX as int) >= (lim() + 1) * sc()) by (nonlinear_arith);
                    lemma_round_div_big(p, sc());
                }
                TAValue { raw: NAN_RAW }
            },
        }
    }

    /// Sample division.
    pub fn div(self, other: TAValue) -> (r: TAValue)
        requires
            ok_v(self@),
            ok_v(other@),
        ensures
            r@ == div_v(self@, other@),
            ok_v(r@),
    {
        if self.raw == NAN_RAW || other.raw == NAN_RAW || other.raw == 0 {
            return TAValue { raw: NAN_RAW };
        }
        proof {
            assert(-(i128::MAX as int) <= self@ * sc() <= i128::MAX as int) by (nonlinear_arith)
                requires
                    -lim() <= self@ <= lim(),
            ;
        }
        let p = self.raw * SCALE;
        let s = if other.raw > 0 {
            round_to_nearest(p, other.raw)
        } else {
            round_to_nearest(-p, -other.raw)
        };
        if -RAW_LIMIT <= s && s <= RAW_LIMIT {
            TAValue { raw: s }
        } else {
            TAValue { raw: NAN_RAW }
        }
    }

    /// Sample square root.
    pub fn sqrt(self) -> (r: TAValue)
        requires
            ok_v(self@),
        ensures
            r@ == sqrt_v(self@),
            ok_v(r@),
    {
        if self.raw == NAN_RAW || self.raw < 0 {
            return TAValue { raw: NAN_RAW };
        }
        proof {
            assert(0 <= self@ * sc() <= lim() * sc()) by (nonlinear_arith)
                requires
                    0 <= self@ <= lim(),
        ;
        }
        let n = self.raw * SCALE;
        let s = isqrt_exec(n);
        proof {
            assert(s as int <= lim()) by (nonlinear_arith)
                requires
                    is_isqrt(n as int, s as int),
                    n as int <= lim() * sc(),
                    lim() >= sc(),
            ;
        }
        TAValue { raw: s }
    }

    /// The sample standing for a whole number (a period length).
    pub fn from_period(n: usize) -> (r: TAValue)
        ensures
            r@ == from_n_v(n as int),
            ok_v(r@),
    {
        let v = n as i128;
        if v <= 100_000_000_000_000 {
            proof {
                assert(v as int * sc() <= lim()) by (nonlinear_arith)
                    requires
                        0 <= v as int <= 100_000_000_000_000int,
                ;
            }
            TAValue { raw: v * SCALE }
        } else {
            proof {
                assert(v as int * sc() > lim()) by (nonlinear_arith)
                    requires
                        v as int > 100_000_000_000_000int,
                ;
            }
            TAValue { raw: NAN_RAW }
        }
    }

    /// The sample standing for the successor of a whole number (used
    /// where a formula needs `period + 1` without overflowing the
    /// period's own integer type).
    pub fn from_period_succ(n: usize) -> (r: TAValue)
        ensures
            r@ == from_n_v(n as int + 1),
            ok_v(r@),
    {
        let v = n as i128 + 1;
        if v <= 100_000_000_000_000 {
            proof {
                assert(v as int * sc() <= lim()) by (nonlinear_arith)
                    requires
                        0 <= v as int <= 100_000_000_000_000int,
                ;
            }
            TAValue { raw: v * SCALE }
        } else {
            proof {
                assert(v as int * sc() > lim()) by (nonlinear_arith)
                    requires
                        v as int > 100_000_000_000_000int,
                ;
            }
            TAValue { raw: NAN_RAW }
        }
    }

    /// Whether this sample is exactly zero.
    pub fn is_zero(self) -> (b: bool)
        ensures
            b == (self@ == 0),
    {
        self.raw == 0
    }

    /// Whether this sample is finite and strictly positive.
    pub fn is_pos(self) -> (b: bool)
        requires
            ok_v(self@),
        ensures
            b == (!is_nan_v(self@) && self@ > 0),
    {
        self.raw != NAN_RAW && self.raw > 0
    }

    /// The larger of two samples.
    pub fn max_of(self, other: TAValue) -> (r: TAValue)
        requires
            ok_v(self@),
            ok_v(other@),
        ensures
            r@ == max_v(self@, other@),
            ok_v(r@),
    {
        if self.raw == NAN_RAW || other.raw == NAN_RAW {
            TAValue { raw: NAN_RAW }
        } else if self.raw >= other.raw {
            self
        } else {
            other
        }
    }

    /// The smaller of two samples.
    pub fn min_of(self, other: TAValue) -> (r: TAValue)
        requires
            ok_v(self@),
            ok_v(other@),
        ensures
            r@ == min_v(self@, other@),
            ok_v(r@),
    {
        if self.raw == NAN_RAW || other.raw == NAN_RAW {
            TAValue { raw: NAN_RAW }
        } else if self.raw <= other.raw {
            self
        } else {
            other
        }
    }

    /// Sample subtraction.
    pub fn sub(self, other: TAValue) -> (r: TAValue)
        requires
            ok_v(self@),
            ok_v(other@),
        ensures
            r@ == sub_v(self@, other@),
            ok_v(r@),
    {
        if self.raw == NAN_RAW || other.raw == NAN_RAW {
            TAValue { raw: NAN_RAW }
        } else {
            let s = self.raw - other.raw;
            if -RAW_LIMIT <= s && s <= RAW_LIMIT {
                TAValue { raw: s }
            } else {
                TAValue { raw: NAN_RAW }
            }
        }
    }
}

} // verus!
