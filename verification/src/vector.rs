//! 3D displacement vectors over fixed-point scalars.

use vstd::prelude::*;
use crate::fixed::{
    Fixed, SCALE, ok_raw, tdiv, sqrt_raw, lemma_tdiv, lemma_tdiv_le, lemma_sqrt_raw,
};

verus! {

/// Operands of a dot product are kept within `DOT_LIMIT == 2^62` raw, so
/// the three summed products stay far inside `i128`.
pub const DOT_LIMIT: i128 = 4611686018427387904;

/// A direction or displacement in 3D space.
#[derive(Clone, Copy, Debug, PartialEq, Eq, Structural)]
pub struct Vector3 {
    pub x: Fixed,
    pub y: Fixed,
    pub z: Fixed,
}

/// The exact integer a fixed-point dot product produces: each pairwise
/// product rescaled by `SCALE` with truncation, then summed.
pub open spec fn dot_raw(a: Vector3, b: Vector3) -> int {
    tdiv(a.x.raw * b.x.raw, SCALE as int) + tdiv(a.y.raw * b.y.raw, SCALE as int) + tdiv(
        a.z.raw * b.z.raw,
        SCALE as int,
    )
}

/// The fixed-point normalization of `v`: each component divided by the
/// fixed-point magnitude of `v`, truncating toward zero.
pub open spec fn norm_spec(v: Vector3) -> Vector3 {
    let m = sqrt_raw(dot_raw(v, v) * SCALE);
    Vector3 {
        x: Fixed { raw: tdiv(v.x.raw * SCALE, m) as i128 },
        y: Fixed { raw: tdiv(v.y.raw * SCALE, m) as i128 },
        z: Fixed { raw: tdiv(v.z.raw * SCALE, m) as i128 },
    }
}

impl Vector3 {
    /// All three components within `b` raw units of zero.
    pub open spec fn bounded(self, b: int) -> bool {
        &&& -b <= self.x.raw <= b
        &&& -b <= self.y.raw <= b
        &&& -b <= self.z.raw <= b
    }

    /// Exact component-wise sum.
    pub fn add(self, other: Vector3) -> (r: Vector3)
        requires
            ok_raw(self.x.raw + other.x.raw),
            ok_raw(self.y.raw + other.y.raw),
            ok_raw(self.z.raw + other.z.raw),
        ensures
            r.x.raw == self.x.raw + other.x.raw,
            r.y.raw == self.y.raw + other.y.raw,
            r.z.raw == self.z.raw + other.z.raw,
    {
        Vector3 { x: self.x.add(other.x), y: self.y.add(other.y), z: self.z.add(other.z) }
    }

    /// Exact component-wise difference.
    pub fn sub(self, other: Vector3) -> (r: Vector3)
        requires
            ok_raw(self.x.raw - other.x.raw),
            ok_raw(self.y.raw - other.y.raw),
            ok_raw(self.z.raw - other.z.raw),
        ensures
            r.x.raw == self.x.raw - other.x.raw,
            r.y.raw == self.y.raw - other.y.raw,
            r.z.raw == self.z.raw - other.z.raw,
    {
        Vector3 { x: self.x.sub(other.x), y: self.y.sub(other.y), z: self.z.sub(other.z) }
    }

    /// Component-wise scaling by a fixed-point factor, truncating.
    pub fn scale(self, s: Fixed) -> (r: Vector3)
        requires
            self.bounded(DOT_LIMIT as int),
            -DOT_LIMIT <= s.raw <= DOT_LIMIT,
        ensures
            r.x.raw == tdiv(self.x.raw * s.raw, SCALE as int),
            r.y.raw == tdiv(self.y.raw * s.raw, SCALE as int),
            r.z.raw == tdiv(self.z.raw * s.raw, SCALE as int),
    {
        proof {
            lemma_prod_in_range(self.x.raw as int, s.raw as int);
            lemma_prod_in_range(self.y.raw as int, s.raw as int);
            lemma_prod_in_range(self.z.raw as int, s.raw as int);
        }
        Vector3 { x: self.x.mul(s), y: self.y.mul(s), z: self.z.mul(s) }
    }

    /// Dot product on the fixed-point grid: exactly `dot_raw(self, other)`.
    pub fn dot(self, other: Vector3) -> (r: Fixed)
        requires
            self.bounded(DOT_LIMIT as int),
            other.bounded(DOT_LIMIT as int),
        ensures
            r.raw == dot_raw(self, other),
    {
        proof {
            lemma_prod_in_range(self.x.raw as int, other.x.raw as int);
            lemma_prod_in_range(self.y.raw as int, other.y.raw as int);
            lemma_prod_in_range(self.z.raw as int, other.z.raw as int);
        }
        let px = self.x.mul(other.x);
        let py = self.y.mul(other.y);
        let pz = self.z.mul(other.z);
        px.add(py).add(pz)
    }

    /// Fixed-point Euclidean magnitude: the truncated square root of the
    /// fixed-point dot product of the vector with itself.
    pub fn length(self) -> (r: Fixed)
        requires
            self.bounded(DOT_LIMIT as int),
        ensures
            r.raw == sqrt_raw(dot_raw(self, self) * SCALE),
            r.raw >= 0,
    {
        proof {
            lemma_dot_raw_bounded(self, self);
            lemma_dot_self_nonneg(self);
        }
        let d = self.dot(self);
        d.sqrt()
    }

    /// Fixed-point normalization.  The result is `norm_spec(self)`: each
    /// component divided by the magnitude, truncating toward zero.  A
    /// degenerate (zero on the grid) vector is excluded by the caller.
    pub fn normalize(self) -> (r: Vector3)
        requires
            self.bounded(DOT_LIMIT as int),
            dot_raw(self, self) >= 1,
        ensures
            r == norm_spec(self),
    {
        proof {
            lemma_dot_raw_bounded(self, self);
            assert(dot_raw(self, self) * SCALE >= SCALE) by (nonlinear_arith)
                requires dot_raw(self, self) >= 1, SCALE >= 1,
            ;
            lemma_sqrt_raw(dot_raw(self, self) * SCALE);
            let m = sqrt_raw(dot_raw(self, self) * SCALE);
            if m == 0 {
                assert((m + 1) * (m + 1) == 1) by (nonlinear_arith)
                    requires m == 0,
                ;
                assert(false);
            }
        }
        let m = self.length();
        Vector3 { x: self.x.div(m), y: self.y.div(m), z: self.z.div(m) }
    }
}

/// Two raw values within `DOT_LIMIT` multiply and rescale without leaving
/// the representable range.
pub proof fn lemma_prod_in_range(a: int, b: int)
    requires
        -DOT_LIMIT <= a <= DOT_LIMIT,
        -DOT_LIMIT <= b <= DOT_LIMIT,
    ensures
        -21267647932558653966460912964485513216 <= a * b <= 21267647932558653966460912964485513216,
        ok_raw(a * b),
        -4951760157141521099596496896 <= tdiv(a * b, SCALE as int) <= 4951760157141521099596496896,
{
    assert(-21267647932558653966460912964485513216 <= a * b
        <= 21267647932558653966460912964485513216) by (nonlinear_arith)
        requires -DOT_LIMIT <= a <= DOT_LIMIT, -DOT_LIMIT <= b <= DOT_LIMIT,
    ;
    lemma_tdiv_le(a * b, SCALE as int, 4951760157141521099596496896);
}

/// The fixed-point dot product of vectors with `DOT_LIMIT`-bounded
/// components is itself comfortably bounded.
pub proof fn lemma_dot_raw_bounded(a: Vector3, b: Vector3)
    requires
        a.bounded(DOT_LIMIT as int),
        b.bounded(DOT_LIMIT as int),
    ensures
        -14855280471424563298789490688 <= dot_raw(a, b) <= 14855280471424563298789490688,
        ok_raw(dot_raw(a, b) * SCALE),
{
    lemma_prod_in_range(a.x.raw as int, b.x.raw as int);
    lemma_prod_in_range(a.y.raw as int, b.y.raw as int);
    lemma_prod_in_range(a.z.raw as int, b.z.raw as int);
    assert(ok_raw(dot_raw(a, b) * SCALE)) by (nonlinear_arith)
        requires -14855280471424563298789490688 <= dot_raw(a, b) <= 14855280471424563298789490688,
    ;
}

/// A parametric bound on a fixed-point dot product: componentwise bounds
/// on the operands, whose product is covered by `q` scale units, bound
/// the dot product by `3 * q`.
pub proof fn lemma_dot_raw_le(a: Vector3, b: Vector3, ba: int, bb: int, q: int)
    requires
        0 <= ba,
        0 <= bb,
        0 <= q,
        a.bounded(ba),
        b.bounded(bb),
        ba * bb <= q * SCALE,
    ensures
        -3 * q <= dot_raw(a, b) <= 3 * q,
{
    assert(-(q * SCALE) <= a.x.raw * b.x.raw <= q * SCALE) by (nonlinear_arith)
        requires -ba <= a.x.raw <= ba, -bb <= b.x.raw <= bb, ba * bb <= q * SCALE, 0 <= ba, 0 <= bb,
    ;
    assert(-(q * SCALE) <= a.y.raw * b.y.raw <= q * SCALE) by (nonlinear_arith)
        requires -ba <= a.y.raw <= ba, -bb <= b.y.raw <= bb, ba * bb <= q * SCALE, 0 <= ba, 0 <= bb,
    ;
    assert(-(q * SCALE) <= a.z.raw * b.z.raw <= q * SCALE) by (nonlinear_arith)
        requires -ba <= a.z.raw <= ba, -bb <= b.z.raw <= bb, ba * bb <= q * SCALE, 0 <= ba, 0 <= bb,
    ;
    lemma_tdiv_le(a.x.raw * b.x.raw, SCALE as int, q);
    lemma_tdiv_le(a.y.raw * b.y.raw, SCALE as int, q);
    lemma_tdiv_le(a.z.raw * b.z.raw, SCALE as int, q);
}

/// A vector's fixed-point dot product with itself is non-negative.
pub proof fn lemma_dot_self_nonneg(a: Vector3)
    ensures
        dot_raw(a, a) >= 0,
{
    assert(a.x.raw * a.x.raw >= 0) by (nonlinear_arith);
    assert(a.y.raw * a.y.raw >= 0) by (nonlinear_arith);
    assert(a.z.raw * a.z.raw >= 0) by (nonlinear_arith);
    lemma_tdiv(a.x.raw * a.x.raw, SCALE as int);
    lemma_tdiv(a.y.raw * a.y.raw, SCALE as int);
    lemma_tdiv(a.z.raw * a.z.raw, SCALE as int);
}

} // verus!
