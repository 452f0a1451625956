//! Integer affine maps of the plane, computed by `euclid`.
//!
//! A [`Matrix`] holds the six terms of a 2D affine map in the order and
//! with the meaning of `euclid::Transform2D`: a point `(x, y)` is sent to
//! `(x * m11 + y * m21 + m31, x * m12 + y * m22 + m32)`.

use euclid::default::{Point2D, Transform2D, Vector2D};
use vstd::prelude::*;

verus! {

/// The terms of an affine map with integer coefficients.
#[derive(Clone, Copy, Debug, PartialEq, Eq, Structural)]
pub struct Matrix {
    pub m11: i64,
    pub m12: i64,
    pub m21: i64,
    pub m22: i64,
    pub m31: i64,
    pub m32: i64,
}

/// Whether `v` is the value of an `i64`.
pub open spec fn fits(v: int) -> bool {
    i64::MIN <= v <= i64::MAX
}

impl Matrix {
    /// The first coordinate of the image of `(x, y)`.
    pub open spec fn apply_x(self, x: int, y: int) -> int {
        x * self.m11 + y * self.m21 + self.m31
    }

    /// The second coordinate of the image of `(x, y)`.
    pub open spec fn apply_y(self, x: int, y: int) -> int {
        x * self.m12 + y * self.m22 + self.m32
    }

    /// No step of mapping `(x, y)` leaves the range of `i64`.
    pub open spec fn apply_fits(self, x: int, y: int) -> bool {
        &&& fits(x * self.m11) && fits(y * self.m21) && fits(x * self.m11 + y * self.m21)
        &&& fits(self.apply_x(x, y))
        &&& fits(x * self.m12) && fits(y * self.m22) && fits(x * self.m12 + y * self.m22)
        &&& fits(self.apply_y(x, y))
    }

    /// The map that first moves a point by `(vx, vy)` and then applies
    /// `self`.
    pub open spec fn spec_pre_translate(self, vx: int, vy: int) -> (int, int, int, int, int, int) {
        (
            self.m11 as int,
            self.m12 as int,
            self.m21 as int,
            self.m22 as int,
            vx * self.m11 + vy * self.m21 + self.m31,
            vx * self.m12 + vy * self.m22 + self.m32,
        )
    }

    /// No step of [`pre_translate`] leaves the range of `i64`.
    pub open spec fn pre_translate_fits(self, vx: int, vy: int) -> bool {
        &&& fits(vx * self.m11) && fits(vy * self.m21) && fits(vx * self.m11 + vy * self.m21)
        &&& fits(vx * self.m11 + vy * self.m21 + self.m31)
        &&& fits(vx * self.m12) && fits(vy * self.m22) && fits(vx * self.m12 + vy * self.m22)
        &&& fits(vx * self.m12 + vy * self.m22 + self.m32)
    }

    /// The six terms as a tuple of integers.
    pub open spec fn terms(self) -> (int, int, int, int, int, int) {
        (
            self.m11 as int,
            self.m12 as int,
            self.m21 as int,
            self.m22 as int,
            self.m31 as int,
            self.m32 as int,
        )
    }
}

/// `euclid::Transform2D::transform_point` on the map with the terms of `m`:
/// the image of the point `(x, y)`. The products and sums that it forms must
/// stay in range.
#[verifier::external_body]
pub(crate) fn transform_point(m: &Matrix, x: i64, y: i64) -> (p: (i64, i64))
    requires
        m.apply_fits(x as int, y as int),
    ensures
        p.0 == m.apply_x(x as int, y as int),
        p.1 == m.apply_y(x as int, y as int),
{
    let t: Transform2D<i64> = Transform2D::new(m.m11, m.m12, m.m21, m.m22, m.m31, m.m32);
    let p = t.transform_point(Point2D::new(x, y));
    (p.x, p.y)
}

/// `euclid::Transform2D::scale`: the map that multiplies the first
/// coordinate by `x` and the second by `y`.
#[verifier::external_body]
pub(crate) fn scale(x: i64, y: i64) -> (m: Matrix)
    ensures
        m == (Matrix { m11: x, m12: 0, m21: 0, m22: y, m31: 0, m32: 0 }),
{
    let t: Transform2D<i64> = Transform2D::scale(x, y);
    Matrix { m11: t.m11, m12: t.m12, m21: t.m21, m22: t.m22, m31: t.m31, m32: t.m32 }
}

/// `euclid::Transform2D::pre_translate` on the map with the terms of `m`:
/// the map that moves a point by `(vx, vy)` before `m` is applied. The
/// linear terms stay; the products and sums that form the new translation
/// must stay in range.
#[verifier::external_body]
pub(crate) fn pre_translate(m: &Matrix, vx: i64, vy: i64) -> (r: Matrix)
    requires
        m.pre_translate_fits(vx as int, vy as int),
    ensures
        r.terms() == m.spec_pre_translate(vx as int, vy as int),
{
    let t: Transform2D<i64> = Transform2D::new(m.m11, m.m12, m.m21, m.m22, m.m31, m.m32);
    let t = t.pre_translate(Vector2D::new(vx, vy));
    Matrix { m11: t.m11, m12: t.m12, m21: t.m21, m22: t.m22, m31: t.m31, m32: t.m32 }
}

/// `euclid::Transform2D::then_translate` on the map with the terms of `m`:
/// the map that moves the image of a point by `(vx, vy)` after `m` is
/// applied. Only the translation changes; its sums must stay in range.
#[verifier::external_body]
pub(crate) fn then_translate(m: &Matrix, vx: i64, vy: i64) -> (r: Matrix)
    requires
        fits(m.m31 + vx),
        fits(m.m32 + vy),
    ensures
        r == (Matrix { m31: (m.m31 + vx) as i64, m32: (m.m32 + vy) as i64, ..*m }),
{
    let t: Transform2D<i64> = Transform2D::new(m.m11, m.m12, m.m21, m.m22, m.m31, m.m32);
    let t = t.then_translate(Vector2D::new(vx, vy));
    Matrix { m11: t.m11, m12: t.m12, m21: t.m21, m22: t.m22, m31: t.m31, m32: t.m32 }
}

/// `euclid::Transform2D::pre_scale` on the map with the terms of `m`: the
/// map that multiplies the coordinates of a point by `x` and `y` before `m`
/// is applied. The four products must stay in range.
#[verifier::external_body]
pub(crate) fn pre_scale(m: &Matrix, x: i64, y: i64) -> (r: Matrix)
    requires
        fits(m.m11 * x),
        fits(m.m12 * x),
        fits(m.m21 * y),
        fits(m.m22 * y),
    ensures
        r.terms() == (m.m11 * x, m.m12 * x, m.m21 * y, m.m22 * y, m.m31 as int, m.m32 as int),
{
    let t: Transform2D<i64> = Transform2D::new(m.m11, m.m12, m.m21, m.m22, m.m31, m.m32);
    let t = t.pre_scale(x, y);
    Matrix { m11: t.m11, m12: t.m12, m21: t.m21, m22: t.m22, m31: t.m31, m32: t.m32 }
}

} // verus!
