//! Fixed-point scalars.
//!
//! All geometric and color quantities in this crate are binary fixed-point
//! numbers: a value `v` is stored as the integer `raw == v * SCALE` with
//! `SCALE == 2^32`.  Every operation states exactly which integer it
//! produces, so the whole rendering pipeline can be reasoned about over
//! plain integers, with no rounding left unspecified.

use vstd::prelude::*;

verus! {

/// One unit, `2^32`: the scale of the fixed-point representation.
pub const SCALE: i128 = 4294967296;

/// Raw values whose pairwise products must stay representable are kept
/// within `RAW_LIMIT == 2^126`, leaving the product inside `i128`.
pub const RAW_LIMIT: i128 = 85070591730234615865843651857942052864;

/// Absolute value of an integer.
pub open spec fn iabs(p: int) -> int {
    if p >= 0 {
        p
    } else {
        -p
    }
}

/// Quotient truncated toward zero, for a positive divisor.  This is the
/// rounding that every division and rescaling in this crate performs.
pub open spec fn tdiv(p: int, d: int) -> int {
    if p >= 0 {
        p / d
    } else {
        -((-p) / d)
    }
}

/// The floor of the square root: the unique `r >= 0` with
/// `r * r <= n < (r + 1) * (r + 1)`.
pub open spec fn sqrt_raw(n: int) -> int
    decreases n,
{
    if n <= 0 {
        0
    } else {
        let p = sqrt_raw(n - 1);
        if n < (p + 1) * (p + 1) {
            p
        } else {
            p + 1
        }
    }
}

/// How `tdiv` brackets the dividend: the quotient times the divisor lands
/// within one divisor of `p`, on the zero side.
pub proof fn lemma_tdiv(p: int, d: int)
    requires
        d >= 1,
    ensures
        p >= 0 ==> 0 <= tdiv(p, d) && p - d < tdiv(p, d) * d <= p,
        p < 0 ==> tdiv(p, d) <= 0 && p <= tdiv(p, d) * d < p + d,
{
    if p >= 0 {
        let q = p / d;
        let r = p % d;
        vstd::arithmetic::div_mod::lemma_fundamental_div_mod(p, d);
        assert(0 <= r < d) by {
            vstd::arithmetic::div_mod::lemma_mod_bound(p, d);
        }
        assert(q * d == p - r) by (nonlinear_arith)
            requires p == d * q + r,
        ;
        assert(q >= 0) by (nonlinear_arith)
            requires q * d == p - r, 0 <= r < d, p >= 0, d >= 1,
        ;
    } else {
        let q = (-p) / d;
        let r = (-p) % d;
        vstd::arithmetic::div_mod::lemma_fundamental_div_mod(-p, d);
        assert(0 <= r < d) by {
            vstd::arithmetic::div_mod::lemma_mod_bound(-p, d);
        }
        assert(q * d == -p - r) by (nonlinear_arith)
            requires -p == d * q + r,
        ;
        assert(q >= 0) by (nonlinear_arith)
            requires q * d == -p - r, 0 <= r < d, p < 0, d >= 1,
        ;
        assert((-q) * d == -(q * d)) by (nonlinear_arith);
    }
}

/// A bound on the dividend gives the same bound, shrunk by the divisor,
/// on the truncated quotient.
pub proof fn lemma_tdiv_le(p: int, d: int, b: int)
    requires
        d >= 1,
        0 <= b,
        -b * d <= p <= b * d,
    ensures
        -b <= tdiv(p, d) <= b,
{
    lemma_tdiv(p, d);
    let q = tdiv(p, d);
    if p >= 0 {
        assert(q <= b) by (nonlinear_arith)
            requires q * d <= p, p <= b * d, d >= 1,
        ;
    } else {
        assert(-b <= q) by (nonlinear_arith)
            requires p <= q * d, -b * d <= p, d >= 1,
        ;
    }
}

/// The basic bracketing facts about `sqrt_raw`.
pub proof fn lemma_sqrt_raw(n: int)
    requires
        n >= 0,
    ensures
        0 <= sqrt_raw(n),
        sqrt_raw(n) * sqrt_raw(n) <= n,
        n < (sqrt_raw(n) + 1) * (sqrt_raw(n) + 1),
    decreases n,
{
    if n == 0 {
    } else {
        lemma_sqrt_raw(n - 1);
        let p = sqrt_raw(n - 1);
        if n < (p + 1) * (p + 1) {
        } else {
            assert((p + 1) * (p + 1) <= n);
            assert(n - 1 < (p + 1) * (p + 1));
            assert(n < (p + 2) * (p + 2)) by (nonlinear_arith)
                requires n <= (p + 1) * (p + 1), p >= 0,
            ;
        }
    }
}

/// `sqrt_raw` is the only value bracketed this way.
pub proof fn lemma_sqrt_raw_unique(n: int, r: int)
    requires
        n >= 0,
        0 <= r,
        r * r <= n,
        n < (r + 1) * (r + 1),
    ensures
        sqrt_raw(n) == r,
{
    lemma_sqrt_raw(n);
    let s = sqrt_raw(n);
    if s < r {
        assert(false) by (nonlinear_arith)
            requires 0 <= s, s + 1 <= r, r * r <= n, n < (s + 1) * (s + 1),
        ;
    }
    if r < s {
        assert(false) by (nonlinear_arith)
            requires 0 <= r, r + 1 <= s, s * s <= n, n < (r + 1) * (r + 1),
        ;
    }
}

/// Truncating division of an exact multiple recovers the factor.
pub proof fn lemma_tdiv_exact(p: int, d: int, q: int)
    requires
        d >= 1,
        q >= 0,
        p == q * d,
    ensures
        tdiv(p, d) == q,
{
    assert(p >= 0) by (nonlinear_arith)
        requires p == q * d, q >= 0, d >= 1,
    ;
    vstd::arithmetic::div_mod::lemma_fundamental_div_mod_converse(p, d, q, 0);
}

/// A bound on the radicand squared gives the bound itself on the root.
pub proof fn lemma_sqrt_raw_le_bound(n: int, b: int)
    requires
        0 <= n,
        0 <= b,
        n <= b * b,
    ensures
        sqrt_raw(n) <= b,
{
    lemma_sqrt_raw(n);
    let s = sqrt_raw(n);
    if s > b {
        assert(false) by (nonlinear_arith)
            requires s >= b + 1, s * s <= n, n <= b * b, b >= 0,
        ;
    }
}

/// A fixed-point number: the represented value is `raw / SCALE`.
#[derive(Clone, Copy, Debug, PartialEq, Eq, Structural)]
pub struct Fixed {
    pub raw: i128,
}

/// Raw values that stay multipliable without leaving `i128`.
pub open spec fn ok_raw(r: int) -> bool {
    -RAW_LIMIT <= r <= RAW_LIMIT
}

impl Fixed {
    /// The number with the given raw representation: `raw / SCALE` as a value.
    pub fn from_raw(raw: i128) -> (r: Fixed)
        ensures
            r.raw == raw,
    {
        Fixed { raw }
    }

    /// The integer `v` as a fixed-point number.
    pub fn from_int(v: i64) -> (r: Fixed)
        ensures
            r.raw == v * SCALE,
    {
        Fixed { raw: (v as i128) * SCALE }
    }

    /// The fraction `n / d`, truncated toward zero on the fixed-point grid.
    pub fn from_ratio(n: i64, d: i64) -> (r: Fixed)
        requires
            d >= 1,
        ensures
            r.raw == tdiv(n * SCALE, d as int),
    {
        proof {
            lemma_tdiv(n * SCALE, d as int);
            lemma_tdiv(iabs(n * SCALE), d as int);
            assert(iabs(n * SCALE) == iabs(n as int) * SCALE) by (nonlinear_arith);
            assert(tdiv(iabs(n * SCALE), d as int) <= iabs(n * SCALE)) by (nonlinear_arith)
                requires
                    tdiv(iabs(n * SCALE), d as int) * d <= iabs(n * SCALE),
                    0 <= tdiv(iabs(n * SCALE), d as int),
                    d >= 1,
            ;
            if n < 0 {
                assert(n * SCALE <= -SCALE) by (nonlinear_arith)
                    requires n <= -1,
                ;
            }
        }
        let negate: bool = n < 0;
        let au: u128 = if n >= 0 {
            n as u128
        } else {
            (-(n as i128)) as u128
        };
        let p: u128 = au * (SCALE as u128);
        let q: u128 = p / (d as u128);
        if negate {
            Fixed { raw: -(q as i128) }
        } else {
            Fixed { raw: q as i128 }
        }
    }

    /// Zero.
    pub fn zero() -> (r: Fixed)
        ensures
            r.raw == 0,
    {
        Fixed { raw: 0 }
    }

    /// One.
    pub fn one() -> (r: Fixed)
        ensures
            r.raw == SCALE,
    {
        Fixed { raw: SCALE }
    }

    /// Exact sum.
    pub fn add(self, other: Fixed) -> (r: Fixed)
        requires
            ok_raw(self.raw + other.raw),
        ensures
            r.raw == self.raw + other.raw,
    {
        Fixed { raw: self.raw + other.raw }
    }

    /// Exact difference.
    pub fn sub(self, other: Fixed) -> (r: Fixed)
        requires
            ok_raw(self.raw - other.raw),
        ensures
            r.raw == self.raw - other.raw,
    {
        Fixed { raw: self.raw - other.raw }
    }

    /// Exact negation.
    pub fn neg(self) -> (r: Fixed)
        requires
            ok_raw(self.raw as int),
        ensures
            r.raw == -self.raw,
    {
        Fixed { raw: -self.raw }
    }

    /// Product, truncated toward zero on the fixed-point grid.
    pub fn mul(self, other: Fixed) -> (r: Fixed)
        requires
            ok_raw(self.raw as int),
            ok_raw(other.raw as int),
            ok_raw(self.raw * other.raw),
        ensures
            r.raw == tdiv(self.raw * other.raw, SCALE as int),
    {
        proof {
            lemma_tdiv(self.raw * other.raw, SCALE as int);
        }
        let negate: bool = (self.raw < 0) != (other.raw < 0);
        let au: u128 = if self.raw >= 0 {
            self.raw as u128
        } else {
            (-self.raw) as u128
        };
        let bu: u128 = if other.raw >= 0 {
            other.raw as u128
        } else {
            (-other.raw) as u128
        };
        proof {
            assert(au * bu == iabs(self.raw * other.raw)) by (nonlinear_arith)
                requires
                    au == iabs(self.raw as int),
                    bu == iabs(other.raw as int),
            ;
        }
        let q: u128 = (au * bu) / (SCALE as u128);
        proof {
            lemma_tdiv(iabs(self.raw * other.raw), SCALE as int);
        }
        if negate {
            proof {
                assert(self.raw * other.raw <= 0) by (nonlinear_arith)
                    requires (self.raw < 0) != (other.raw < 0),
                ;
            }
            Fixed { raw: -(q as i128) }
        } else {
            proof {
                assert(self.raw * other.raw >= 0) by (nonlinear_arith)
                    requires (self.raw < 0) == (other.raw < 0),
                ;
            }
            Fixed { raw: q as i128 }
        }
    }

    /// Quotient by a positive number, truncated toward zero on the
    /// fixed-point grid.
    pub fn div(self, other: Fixed) -> (r: Fixed)
        requires
            other.raw >= 1,
            ok_raw(self.raw * SCALE),
        ensures
            r.raw == tdiv(self.raw * SCALE, other.raw as int),
    {
        proof {
            lemma_tdiv(self.raw * SCALE, other.raw as int);
            lemma_tdiv(iabs(self.raw * SCALE), other.raw as int);
            assert(iabs(self.raw * SCALE) == iabs(self.raw as int) * SCALE) by (nonlinear_arith);
            assert(iabs(self.raw as int) <= RAW_LIMIT) by (nonlinear_arith)
                requires iabs(self.raw as int) * SCALE <= RAW_LIMIT, SCALE >= 1,
            ;
            assert(tdiv(iabs(self.raw * SCALE), other.raw as int) <= iabs(self.raw * SCALE)) by (nonlinear_arith)
                requires
                    tdiv(iabs(self.raw * SCALE), other.raw as int) * other.raw <= iabs(self.raw * SCALE),
                    0 <= tdiv(iabs(self.raw * SCALE), other.raw as int),
                    other.raw >= 1,
            ;
            if self.raw < 0 {
                assert(self.raw * SCALE <= -SCALE) by (nonlinear_arith)
                    requires self.raw <= -1,
                ;
            }
        }
        let negate: bool = self.raw < 0;
        let au: u128 = if self.raw >= 0 {
            self.raw as u128
        } else {
            (-self.raw) as u128
        };
        let p: u128 = au * (SCALE as u128);
        let q: u128 = p / (other.raw as u128);
        if negate {
            Fixed { raw: -(q as i128) }
        } else {
            Fixed { raw: q as i128 }
        }
    }

    /// Square root of a non-negative number, truncated on the fixed-point
    /// grid: the result's raw value is `sqrt_raw(self.raw * SCALE)`.
    pub fn sqrt(self) -> (r: Fixed)
        requires
            self.raw >= 0,
            ok_raw(self.raw * SCALE),
        ensures
            r.raw == sqrt_raw(self.raw * SCALE),
            r.raw >= 0,
    {
        let n: u128 = (self.raw as u128) * (SCALE as u128);
        let root: u128 = isqrt_u128(n);
        proof {
            lemma_sqrt_raw_unique(self.raw * SCALE, root as int);
        }
        Fixed { raw: root as i128 }
    }
}

/// Floor of the square root of an unsigned 128-bit integer, by binary
/// search on the result.
fn isqrt_u128(n: u128) -> (r: u128)
    ensures
        r * r <= n,
        n < (r + 1) * (r + 1),
        r < 18446744073709551616,
{
    let mut lo: u128 = 0;
    let mut hi: u128 = 18446744073709551616;
    proof {
        assert(n < hi * hi) by (nonlinear_arith)
            requires hi == 18446744073709551616, n <= u128::MAX,
        ;
    }
    while hi - lo > 1
        invariant
            0 <= lo < hi <= 18446744073709551616,
            lo * lo <= n,
            n < hi * hi,
        decreases hi - lo,
    {
        let mid: u128 = lo + (hi - lo) / 2;
        assert(lo < mid < hi);
        proof {
            assert(mid * mid <= 340282366920938463463374607431768211455) by (nonlinear_arith)
                requires mid < 18446744073709551616,
            ;
        }
        if mid * mid <= n {
            lo = mid;
        } else {
            hi = mid;
        }
    }
    proof {
        assert(hi == lo + 1);
    }
    lo
}

} // verus!
