//! Geometric transforms: every output pixel is sampled from the input at
//! the position an affine map assigns to it.
//!
//! The map has rational coefficients: the terms of an integer
//! [`Matrix`](crate::affine::Matrix) over one denominator for each
//! coordinate. Where the mapped position is not a whole pixel, the pixels at
//! its floor and at its ceiling are averaged.

use crate::affine::{self, Matrix};
use crate::error::Error;
use crate::filter::{
    lemma_scan_same, lemma_verdict, spec_eval, verdict, views, Filter, FilterModel,
};
use crate::geometry::{Point, Size};
use crate::image::{Image, ImageView, Meta};
use crate::tone::{div_floor, Factor};
use vstd::prelude::*;

verus! {

/// The largest coordinate of an output pixel that a transform maps.
pub const COORD_LIMIT: i64 = 0x1000_0000;

/// The largest magnitude of a term or a denominator of a transform.
pub const TERM_LIMIT: i64 = 0x2_0000_0000;

/// A map from output positions to input positions: `(x, y)` is sent to
/// `(matrix.apply_x(x, y) / dx, matrix.apply_y(x, y) / dy)`.
#[derive(Clone, Copy, Debug, PartialEq, Eq, Structural)]
pub struct Transform {
    pub matrix: Matrix,
    pub dx: i64,
    pub dy: i64,
}

/// Whether the magnitude of `v` is at most [`TERM_LIMIT`].
pub open spec fn term_ok(v: int) -> bool {
    -TERM_LIMIT <= v <= TERM_LIMIT
}

/// The cosine of a clockwise rotation by `k` quarter turns.
pub open spec fn quarter_cos(k: int) -> int {
    if k == 0 {
        1
    } else if k == 2 {
        -1
    } else {
        0
    }
}

/// The sine of a clockwise rotation by `k` quarter turns.
pub open spec fn quarter_sin(k: int) -> int {
    if k == 1 {
        -1
    } else if k == 3 {
        1
    } else {
        0
    }
}

impl Transform {
    /// The terms and the denominators are within their limits, and the
    /// denominators are positive.
    pub open spec fn wf(self) -> bool {
        &&& term_ok(self.matrix.m11 as int) && term_ok(self.matrix.m12 as int)
        &&& term_ok(self.matrix.m21 as int) && term_ok(self.matrix.m22 as int)
        &&& term_ok(self.matrix.m31 as int) && term_ok(self.matrix.m32 as int)
        &&& 0 < self.dx <= TERM_LIMIT
        &&& 0 < self.dy <= TERM_LIMIT
    }

    /// The column of the input at or left of the position `pt` is mapped
    /// to.
    pub open spec fn floor_x(self, pt: Point) -> int {
        self.matrix.apply_x(pt.x as int, pt.y as int) / (self.dx as int)
    }

    /// The column of the input at or right of the position `pt` is mapped
    /// to.
    pub open spec fn ceil_x(self, pt: Point) -> int {
        -((-self.matrix.apply_x(pt.x as int, pt.y as int)) / (self.dx as int))
    }

    /// The row of the input at or above the position `pt` is mapped to.
    pub open spec fn floor_y(self, pt: Point) -> int {
        self.matrix.apply_y(pt.x as int, pt.y as int) / (self.dy as int)
    }

    /// The row of the input at or below the position `pt` is mapped to.
    pub open spec fn ceil_y(self, pt: Point) -> int {
        -((-self.matrix.apply_y(pt.x as int, pt.y as int)) / (self.dy as int))
    }

    /// Both pixels sampled for `pt` lie inside an input of extent `size`.
    pub open spec fn samples_inside(self, pt: Point, size: Size) -> bool {
        &&& 0 <= self.floor_x(pt) && self.ceil_x(pt) < size.width
        &&& 0 <= self.floor_y(pt) && self.ceil_y(pt) < size.height
    }

    /// The first of the two pixels sampled for `pt`.
    pub open spec fn lower(self, pt: Point) -> Point {
        Point { x: self.floor_x(pt) as usize, y: self.floor_y(pt) as usize }
    }

    /// The second of the two pixels sampled for `pt`.
    pub open spec fn upper(self, pt: Point) -> Point {
        Point { x: self.ceil_x(pt) as usize, y: self.ceil_y(pt) as usize }
    }

    /// Decides [`Transform::wf`].
    pub fn is_wf(&self) -> (b: bool)
        ensures
            b == self.wf(),
    {
        let m = &self.matrix;
        -TERM_LIMIT <= m.m11 && m.m11 <= TERM_LIMIT && -TERM_LIMIT <= m.m12 && m.m12 <= TERM_LIMIT
            && -TERM_LIMIT <= m.m21 && m.m21 <= TERM_LIMIT && -TERM_LIMIT <= m.m22 && m.m22
            <= TERM_LIMIT && -TERM_LIMIT <= m.m31 && m.m31 <= TERM_LIMIT && -TERM_LIMIT <= m.m32
            && m.m32 <= TERM_LIMIT && 0 < self.dx && self.dx <= TERM_LIMIT && 0 < self.dy
            && self.dy <= TERM_LIMIT
    }

    /// The map that [`scale`] builds.
    pub open spec fn spec_scale(x: Factor, y: Factor) -> Transform {
        Transform {
            matrix: Matrix { m11: 1000, m12: 0, m21: 0, m22: 1000, m31: 0, m32: 0 },
            dx: x.0 as i64,
            dy: y.0 as i64,
        }
    }

    /// The map that [`resize`] builds.
    pub open spec fn spec_resize(from: Size, to: Size) -> Transform {
        Transform {
            matrix: Matrix {
                m11: from.width as i64,
                m12: 0,
                m21: 0,
                m22: from.height as i64,
                m31: 0,
                m32: 0,
            },
            dx: to.width as i64,
            dy: to.height as i64,
        }
    }

    /// The clockwise rotation by `k` quarter turns about the point whose
    /// doubled coordinates are `(cx, cy)`.
    pub open spec fn spec_rotate(k: int, cx: int, cy: int) -> Transform {
        let cos = quarter_cos(k);
        let sin = quarter_sin(k);
        Transform {
            matrix: Matrix {
                m11: (2 * cos) as i64,
                m12: (2 * sin) as i64,
                m21: (-2 * sin) as i64,
                m22: (2 * cos) as i64,
                m31: (cx * (1 - cos) + cy * sin) as i64,
                m32: (cy * (1 - cos) - cx * sin) as i64,
            },
            dx: 2,
            dy: 2,
        }
    }
}

impl FilterModel for Transform {
    open spec fn refusal_at(&self, pt: Point, inputs: Seq<ImageView>, out: Meta) -> Option<Error> {
        if inputs.len() == 0 {
            Some(Error::Mismatch)
        } else if inputs[0].meta.channels() != out.channels() {
            Some(Error::Mismatch)
        } else if !self.wf() || pt.x > COORD_LIMIT || pt.y > COORD_LIMIT || !self.samples_inside(
            pt,
            inputs[0].meta.size,
        ) {
            Some(Error::OutOfBounds)
        } else {
            None
        }
    }

    open spec fn level_at(&self, pt: Point, c: int, inputs: Seq<ImageView>, out: Meta) -> int {
        (inputs[0].level(self.lower(pt), c) + inputs[0].level(self.upper(pt), c)) / 2
    }
}

/// The products of mapping a point within the limits stay in range.
proof fn lemma_apply_fits(t: Transform, x: int, y: int)
    requires
        t.wf(),
        0 <= x <= COORD_LIMIT,
        0 <= y <= COORD_LIMIT,
    ensures
        t.matrix.apply_fits(x, y),
        -0x5000_0000_0000_0000 <= t.matrix.apply_x(x, y) <= 0x5000_0000_0000_0000,
        -0x5000_0000_0000_0000 <= t.matrix.apply_y(x, y) <= 0x5000_0000_0000_0000,
{
    lemma_product_bound(x, t.matrix.m11 as int);
    lemma_product_bound(y, t.matrix.m21 as int);
    lemma_product_bound(x, t.matrix.m12 as int);
    lemma_product_bound(y, t.matrix.m22 as int);
}

proof fn lemma_product_bound(x: int, m: int)
    by (nonlinear_arith)
    requires
        0 <= x <= 0x1000_0000,
        -0x2_0000_0000 <= m <= 0x2_0000_0000,
    ensures
        -0x2000_0000_0000_0000 <= x * m <= 0x2000_0000_0000_0000,
{
}

impl Filter for Transform {
    fn compute_at(&self, pt: Point, inputs: &[&Image], out: Meta, px: &mut Vec<i64>) -> (r:
        Result<(), Error>) {
        if inputs.len() == 0 {
            return Err(Error::Mismatch);
        }
        let src: &Image = inputs[0];
        assert(src@ == views(inputs@)[0]);
        if src.meta.num_channels() != out.num_channels() {
            return Err(Error::Mismatch);
        }
        if !self.is_wf() || pt.x > COORD_LIMIT as usize || pt.y > COORD_LIMIT as usize {
            return Err(Error::OutOfBounds);
        }
        proof {
            lemma_apply_fits(*self, pt.x as int, pt.y as int);
        }
        let (nx, ny) = affine::transform_point(&self.matrix, pt.x as i64, pt.y as i64);
        proof {
            lemma_quotient_bound(-nx as int, self.dx as int);
            lemma_quotient_bound(-ny as int, self.dy as int);
        }
        let fx = div_floor(nx, self.dx);
        let cx = -div_floor(-nx, self.dx);
        let fy = div_floor(ny, self.dy);
        let cy = -div_floor(-ny, self.dy);
        if fx < 0 || fy < 0 || cx < 0 || cy < 0 {
            proof {
                lemma_floor_below_ceil(nx as int, self.dx as int);
                lemma_floor_below_ceil(ny as int, self.dy as int);
            }
            return Err(Error::OutOfBounds);
        }
        if cx as u64 >= src.meta.size.width as u64 || cy as u64 >= src.meta.size.height as u64 {
            return Err(Error::OutOfBounds);
        }
        proof {
            lemma_floor_below_ceil(nx as int, self.dx as int);
            lemma_floor_below_ceil(ny as int, self.dy as int);
        }
        let lower = Point { x: fx as usize, y: fy as usize };
        let upper = Point { x: cx as usize, y: cy as usize };
        let ch = px.len();
        let mut c: usize = 0;
        while c < ch
            invariant
                src.wf(),
                lower.within(src.meta.size),
                upper.within(src.meta.size),
                ch == src.meta.channels(),
                px@.len() == ch,
                c <= ch,
                forall|k: int|
                    0 <= k < c ==> px@[k] == (src@.level(lower, k) + src@.level(upper, k)) / 2,
            decreases ch - c,
        {
            let a = src.get_f(lower, c);
            let b = src.get_f(upper, c);
            px.set(c, (a + b) / 2);
            c += 1;
        }
        Ok(())
    }
}

proof fn lemma_quotient_bound(n: int, d: int)
    requires
        0 < d,
        -0x5000_0000_0000_0000 <= n <= 0x5000_0000_0000_0000,
    ensures
        -0x5000_0000_0000_0000 <= n / d <= 0x5000_0000_0000_0000,
{
    vstd::arithmetic::div_mod::lemma_fundamental_div_mod(n, d);
    let q = n / d;
    let r = n % d;
    assert(-0x5000_0000_0000_0000 <= q <= 0x5000_0000_0000_0000) by (nonlinear_arith)
        requires
            n == d * q + r,
            0 <= r < d,
            0 < d,
            -0x5000_0000_0000_0000 <= n <= 0x5000_0000_0000_0000,
    ;
}

/// The floor of a quotient is at most its ceiling.
pub proof fn lemma_floor_below_ceil(n: int, d: int)
    requires
        0 < d,
    ensures
        n / d <= -((-n) / d),
{
    vstd::arithmetic::div_mod::lemma_fundamental_div_mod(n, d);
    vstd::arithmetic::div_mod::lemma_fundamental_div_mod(-n, d);
    let q = n / d;
    let p = (-n) / d;
    assert(q <= -p) by (nonlinear_arith)
        requires
            n == d * q + n % d,
            -n == d * p + (-n) % d,
            0 <= n % d < d,
            0 <= (-n) % d < d,
            0 < d,
    ;
}

/// The transform that enlarges by the factors `x` and `y`: output position
/// `(u, v)` is sampled at `(u / x, v / y)`. A factor that is not positive
/// gives a transform that refuses every pixel.
pub fn scale(x: Factor, y: Factor) -> (t: Transform)
    ensures
        t == Transform::spec_scale(x, y),
        t.wf() <==> x.0 > 0 && y.0 > 0,
{
    Transform { matrix: affine::scale(1000, 1000), dx: x.0 as i64, dy: y.0 as i64 }
}

/// The transform that samples an image of extent `from` for a destination
/// of extent `to`: output position `(u, v)` is sampled at
/// `(u * from.width / to.width, v * from.height / to.height)`. `None`
/// exactly where a dimension is above [`TERM_LIMIT`].
pub fn resize(from: Size, to: Size) -> (r: Option<Transform>)
    ensures
        r is Some <==> from.width <= TERM_LIMIT && from.height <= TERM_LIMIT && to.width
            <= TERM_LIMIT && to.height <= TERM_LIMIT,
        r matches Some(t) ==> t == Transform::spec_resize(from, to) && (t.wf() <==> to.width > 0
            && to.height > 0),
{
    let limit = TERM_LIMIT as u64;
    if from.width as u64 > limit || from.height as u64 > limit || to.width as u64 > limit
        || to.height as u64 > limit {
        return None;
    }
    Some(
        Transform {
            matrix: affine::scale(from.width as i64, from.height as i64),
            dx: to.width as i64,
            dy: to.height as i64,
        },
    )
}

/// The number of quarter turns in `deg` degrees, for a whole number of
/// them.
pub open spec fn spec_quarters(deg: int) -> Option<int> {
    if deg % 90 == 0 {
        Some((deg % 360) / 90)
    } else {
        None
    }
}

/// The remainder of a negative number, from that of its magnitude.
proof fn lemma_turn(d: int, n: int)
    requires
        n == -d,
        n >= 0,
    ensures
        d % 360 == (360 - n % 360) % 360,
{
    let q = n / 360;
    let s = n % 360;
    vstd::arithmetic::div_mod::lemma_fundamental_div_mod(n, 360);
    if s == 0 {
        vstd::arithmetic::div_mod::lemma_fundamental_div_mod_converse(d, 360, -q, 0);
    } else {
        vstd::arithmetic::div_mod::lemma_fundamental_div_mod_converse(d, 360, -q - 1, 360 - s);
    }
}

/// A number is a multiple of 90 exactly where its remainder by 360 is.
proof fn lemma_quarter_of_turn(d: int)
    ensures
        d % 90 == (d % 360) % 90,
        0 <= d % 360 < 360,
{
    vstd::arithmetic::div_mod::lemma_fundamental_div_mod(d, 360);
    let k = d / 360;
    let t = d % 360;
    vstd::arithmetic::div_mod::lemma_mod_multiples_vanish(4 * k, t, 90);
    assert(90 * (4 * k) + t == d);
}

/// Decides [`spec_quarters`].
pub fn quarters(deg: i32) -> (r: Option<u8>)
    ensures
        spec_quarters(deg as int) == match r {
            Some(k) => Some(k as int),
            None => None,
        },
        r matches Some(k) ==> k < 4,
{
    let d: i64 = deg as i64;
    let turn: i64 = if d >= 0 {
        d % 360
    } else {
        (360 - ((-d) % 360)) % 360
    };
    proof {
        if d < 0 {
            lemma_turn(d as int, -d as int);
        }
        lemma_quarter_of_turn(deg as int);
    }
    if turn == 0 {
        Some(0)
    } else if turn == 90 {
        Some(1)
    } else if turn == 180 {
        Some(2)
    } else if turn == 270 {
        Some(3)
    } else {
        None
    }
}

/// The rotation by `deg` degrees clockwise about the point whose doubled
/// coordinates are `center`: `(1, 1)` is the corner shared by the first
/// four pixels, `(2, 2)` the middle of the second pixel of the second row.
/// `None` where `deg` is no multiple of 90 or a coordinate of `center` is
/// above [`COORD_LIMIT`] in magnitude.
pub fn rotate(deg: i32, center: (i64, i64)) -> (r: Option<Transform>)
    ensures
        r is Some <==> spec_quarters(deg as int) is Some && -COORD_LIMIT <= center.0 <= COORD_LIMIT
            && -COORD_LIMIT <= center.1 <= COORD_LIMIT,
        r matches Some(t) ==> t.wf() && t == Transform::spec_rotate(
            spec_quarters(deg as int).unwrap(),
            center.0 as int,
            center.1 as int,
        ),
{
    let k = match quarters(deg) {
        Some(k) => k,
        None => {
            return None;
        },
    };
    if center.0 < -COORD_LIMIT || center.0 > COORD_LIMIT || center.1 < -COORD_LIMIT || center.1
        > COORD_LIMIT {
        return None;
    }
    let cos: i64 = if k == 0 {
        1
    } else if k == 2 {
        -1
    } else {
        0
    };
    let sin: i64 = if k == 1 {
        -1
    } else if k == 3 {
        1
    } else {
        0
    };
    let turn = Matrix { m11: cos, m12: sin, m21: -sin, m22: cos, m31: 0, m32: 0 };
    proof {
        lemma_unit_product(-center.0 as int, cos as int);
        lemma_unit_product(-center.1 as int, -sin as int);
        lemma_unit_product(-center.0 as int, sin as int);
        lemma_unit_product(-center.1 as int, cos as int);
        lemma_unit_product(center.0 as int, 1 - cos as int);
        lemma_unit_product(center.1 as int, sin as int);
        lemma_unit_product(center.1 as int, 1 - cos as int);
        lemma_unit_product(center.0 as int, sin as int);
    }
    let about = affine::pre_translate(&turn, -center.0, -center.1);
    let back = affine::then_translate(&about, center.0, center.1);
    let doubled = affine::pre_scale(&back, 2, 2);
    Some(Transform { matrix: doubled, dx: 2, dy: 2 })
}

proof fn lemma_unit_product(c: int, u: int)
    by (nonlinear_arith)
    requires
        -1 <= u <= 2,
    ensures
        c * u == (if u == 1 {
            c
        } else if u == -1 {
            -c
        } else if u == 2 {
            2 * c
        } else {
            0
        }),
{
}

/// One less than `n`, doubled coordinates of the middle of `n` pixels.
fn middle(n: usize) -> (r: Option<i64>)
    ensures
        r is Some <==> n <= COORD_LIMIT,
        r matches Some(v) ==> v == n - 1,
{
    if n as u64 > COORD_LIMIT as u64 {
        None
    } else {
        Some(n as i64 - 1)
    }
}

/// The quarter turn clockwise that takes an image of extent `from` to a
/// destination of extent `to`, about the middle of a square of
/// `to.width` by `from.height` pixels.
pub fn rotate90(from: Size, to: Size) -> (r: Option<Transform>)
    ensures
        r is Some <==> to.width <= COORD_LIMIT && from.height <= COORD_LIMIT,
        r matches Some(t) ==> t.wf() && t == Transform::spec_rotate(
            1,
            to.width - 1,
            from.height - 1,
        ),
{
    match (middle(to.width), middle(from.height)) {
        (Some(cx), Some(cy)) => rotate(90, (cx, cy)),
        _ => None,
    }
}

/// The half turn of an image of extent `src` about its middle.
pub fn rotate180(src: Size) -> (r: Option<Transform>)
    ensures
        r is Some <==> src.width <= COORD_LIMIT && src.height <= COORD_LIMIT,
        r matches Some(t) ==> t.wf() && t == Transform::spec_rotate(
            2,
            src.width - 1,
            src.height - 1,
        ),
{
    match (middle(src.width), middle(src.height)) {
        (Some(cx), Some(cy)) => rotate(180, (cx, cy)),
        _ => None,
    }
}

/// The three quarter turns clockwise that take an image of extent `from` to
/// a destination of extent `to`, about the middle of a square of
/// `to.height` by `from.width` pixels.
pub fn rotate270(from: Size, to: Size) -> (r: Option<Transform>)
    ensures
        r is Some <==> to.height <= COORD_LIMIT && from.width <= COORD_LIMIT,
        r matches Some(t) ==> t.wf() && t == Transform::spec_rotate(
            3,
            to.height - 1,
            from.width - 1,
        ),
{
    match (middle(to.height), middle(from.width)) {
        (Some(cx), Some(cy)) => rotate(270, (cx, cy)),
        _ => None,
    }
}

/// Two quotients of positive denominators whose cross products agree have
/// the same floor and the same ceiling.
pub proof fn lemma_equal_quotients(a: int, b: int, c: int, d: int)
    requires
        0 < b,
        0 < d,
        a * d == c * b,
    ensures
        a / b == c / d,
        (-a) / b == (-c) / d,
{
    lemma_cross_floor(a, b, c, d);
    assert((-a) * d == (-c) * b) by (nonlinear_arith)
        requires
            a * d == c * b,
    ;
    lemma_cross_floor(-a, b, -c, d);
}

proof fn lemma_cross_floor(a: int, b: int, c: int, d: int)
    requires
        0 < b,
        0 < d,
        a * d == c * b,
    ensures
        a / b == c / d,
{
    vstd::arithmetic::div_mod::lemma_fundamental_div_mod(a, b);
    let q = a / b;
    let r = a % b;
    let s = c - d * q;
    assert(s * b == r * d) by (nonlinear_arith)
        requires
            a == b * q + r,
            a * d == c * b,
            s == c - d * q,
    ;
    assert(0 <= s < d) by (nonlinear_arith)
        requires
            s * b == r * d,
            0 <= r < b,
            0 < d,
    ;
    vstd::arithmetic::div_mod::lemma_fundamental_div_mod_converse(c, d, q, s);
}

/// Scaling and resizing by the same ratios are one transform: where
/// `1000 / x` is `from.width / to.width` and `1000 / y` is
/// `from.height / to.height`, [`scale`] and [`resize`] refuse the same
/// pixels and sample the same levels, on every input.
pub proof fn lemma_scale_like_resize(
    x: Factor,
    y: Factor,
    from: Size,
    to: Size,
    pt: Point,
    c: int,
    inputs: Seq<ImageView>,
    out: Meta,
)
    requires
        x.0 > 0,
        y.0 > 0,
        0 < to.width <= TERM_LIMIT,
        0 < to.height <= TERM_LIMIT,
        from.width <= TERM_LIMIT,
        from.height <= TERM_LIMIT,
        1000 * to.width == x.0 * from.width,
        1000 * to.height == y.0 * from.height,
    ensures
        Transform::spec_scale(x, y).refusal_at(pt, inputs, out) == Transform::spec_resize(
            from,
            to,
        ).refusal_at(pt, inputs, out),
        Transform::spec_scale(x, y).level_at(pt, c, inputs, out) == Transform::spec_resize(
            from,
            to,
        ).level_at(pt, c, inputs, out),
{
    let s = Transform::spec_scale(x, y);
    let r = Transform::spec_resize(from, to);
    let sx = s.matrix.apply_x(pt.x as int, pt.y as int);
    let rx = r.matrix.apply_x(pt.x as int, pt.y as int);
    let sy = s.matrix.apply_y(pt.x as int, pt.y as int);
    let ry = r.matrix.apply_y(pt.x as int, pt.y as int);
    assert(sx == pt.x * 1000 && sy == pt.y * 1000);
    assert(rx == pt.x * from.width && ry == pt.y * from.height) by (nonlinear_arith)
        requires
            rx == pt.x * from.width + pt.y * 0 + 0,
            ry == pt.x * 0 + pt.y * from.height + 0,
    ;
    assert(sx * to.width == rx * x.0) by (nonlinear_arith)
        requires
            sx == pt.x * 1000,
            rx == pt.x * from.width,
            1000 * to.width == x.0 * from.width,
    ;
    assert(sy * to.height == ry * y.0) by (nonlinear_arith)
        requires
            sy == pt.y * 1000,
            ry == pt.y * from.height,
            1000 * to.height == y.0 * from.height,
    ;
    lemma_equal_quotients(sx, x.0 as int, rx, to.width as int);
    lemma_equal_quotients(sy, y.0 as int, ry, to.height as int);
}

/// Scaling and resizing by the same ratios give the same image: they fail
/// on the same inputs with the same error, and succeed with the same
/// destination.
pub proof fn lemma_scale_resize_same_image(
    x: Factor,
    y: Factor,
    from: Size,
    to: Size,
    inputs: Seq<ImageView>,
    out: Meta,
)
    requires
        x.0 > 0,
        y.0 > 0,
        0 < to.width <= TERM_LIMIT,
        0 < to.height <= TERM_LIMIT,
        from.width <= TERM_LIMIT,
        from.height <= TERM_LIMIT,
        1000 * to.width == x.0 * from.width,
        1000 * to.height == y.0 * from.height,
    ensures
        verdict(&Transform::spec_scale(x, y), inputs, out) == verdict(
            &Transform::spec_resize(from, to),
            inputs,
            out,
        ),
        spec_eval(&Transform::spec_scale(x, y), inputs, out) == spec_eval(
            &Transform::spec_resize(from, to),
            inputs,
            out,
        ),
{
    let s = Transform::spec_scale(x, y);
    let r = Transform::spec_resize(from, to);
    assert forall|pt: Point| pt.within(out.size) implies #[trigger] s.refusal_at(pt, inputs, out)
        == r.refusal_at(pt, inputs, out) by {
        lemma_scale_like_resize(x, y, from, to, pt, 0, inputs, out);
    }
    lemma_scan_same(&s, inputs, &r, inputs, out, 0, 0, out.size.height as int);
    assert forall|i: int| 0 <= i < out.spec_len() implies spec_eval(&s, inputs, out).levels[i]
        == spec_eval(&r, inputs, out).levels[i] by {
        lemma_scale_like_resize(
            x,
            y,
            from,
            to,
            out.point_of(i),
            out.channel_of(i),
            inputs,
            out,
        );
    }
    assert(spec_eval(&s, inputs, out).levels =~= spec_eval(&r, inputs, out).levels);
}

/// The position that a quarter turn samples for the output pixel `pt`,
/// where the input has `height` rows.
pub open spec fn quarter_turn_source(pt: Point, height: int) -> Point {
    Point { x: pt.y, y: (height - 1 - pt.x) as usize }
}

/// A quarter turn of an image of `w` by `h` pixels into a destination of
/// `h` by `w` pixels samples inside the image only: it refuses no pixel of
/// the destination, and the output pixel at `(x, y)` is the input pixel at
/// `(y, h - 1 - x)`.
pub proof fn lemma_rotate90_inside(src: ImageView, out: Meta, pt: Point, c: int)
    requires
        out.size.width == src.meta.size.height,
        out.size.height == src.meta.size.width,
        out.size.width <= COORD_LIMIT,
        out.size.height <= COORD_LIMIT,
        out.channels() == src.meta.channels(),
        pt.within(out.size),
    ensures
        Transform::spec_rotate(1, out.size.width - 1, src.meta.size.height - 1).refusal_at(
            pt,
            seq![src],
            out,
        ) is None,
        Transform::spec_rotate(1, out.size.width - 1, src.meta.size.height - 1).level_at(
            pt,
            c,
            seq![src],
            out,
        ) == src.level(quarter_turn_source(pt, src.meta.size.height as int), c),
        verdict(
            &Transform::spec_rotate(1, out.size.width - 1, src.meta.size.height - 1),
            seq![src],
            out,
        ) is None,
{
    let t = Transform::spec_rotate(1, out.size.width - 1, src.meta.size.height - 1);
    let h = src.meta.size.height as int;
    lemma_unit_product(h - 1, 1 - quarter_cos(1));
    lemma_unit_product(h - 1, quarter_sin(1));
    let m = t.matrix;
    assert(m.terms() == (0int, -2int, 2int, 0int, 0int, 2 * (h - 1)));
    assert forall|q: Point| q.within(out.size) implies (#[trigger] t.refusal_at(
        q,
        seq![src],
        out,
    )) is None && t.lower(q) == quarter_turn_source(q, h) && t.upper(q) == quarter_turn_source(
        q,
        h,
    ) by {
        lemma_unit_product(q.x as int, 0);
        lemma_unit_product(q.y as int, 2);
        lemma_unit_product(q.y as int, 0);
        assert(q.x * m.m12 == -2 * q.x) by (nonlinear_arith)
            requires
                m.m12 == -2,
        ;
        assert(q.x * m.m11 == q.x * 0 && q.y * m.m21 == q.y * 2 && q.y * m.m22 == q.y * 0);
        assert(m.apply_x(q.x as int, q.y as int) == 2 * q.y);
        assert(m.apply_y(q.x as int, q.y as int) == 2 * (h - 1 - q.x));
        assert(t.wf());
        assert(seq![src].len() == 1 && seq![src][0] == src);
        assert(t.floor_x(q) == q.y);
        assert(t.ceil_x(q) == q.y);
        assert(t.floor_y(q) == h - 1 - q.x);
        assert(t.ceil_y(q) == h - 1 - q.x);
        assert(t.samples_inside(q, src.meta.size));
        assert(t.lower(q) == quarter_turn_source(q, h));
        assert(t.upper(q) == quarter_turn_source(q, h));
        assert(t.refusal_at(q, seq![src], out) is None);
    }
    lemma_verdict(&t, seq![src], out);
}

} // verus!
