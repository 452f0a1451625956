//! What the turns by whole quarters do to an image: they sample inside it,
//! each output pixel is one input pixel, and a half turn undoes itself.

use crate::filter::{lemma_verdict, spec_eval, verdict, FilterModel};
use crate::geometry::Point;
use crate::image::{ImageView, Meta};
use crate::tone::Factor;
use crate::transform::{
    lemma_rotate90_inside, quarter_cos, quarter_sin, quarter_turn_source, Transform, COORD_LIMIT,
};
use vstd::prelude::*;

verus! {

proof fn lemma_times(c: int, u: int, v: int)
    by (nonlinear_arith)
    requires
        u == v,
    ensures
        c * u == (if v == 0 {
            0
        } else if v == 1 {
            c
        } else if v == -1 {
            -c
        } else if v == 2 {
            2 * c
        } else if v == -2 {
            -2 * c
        } else {
            c * v
        }),
{
}

/// A half turn of an image into a destination of its own extent refuses no
/// pixel, and the output pixel at `(x, y)` is the input pixel at
/// `(w - 1 - x, h - 1 - y)`.
pub proof fn lemma_rotate180_inside(src: ImageView, out: Meta, pt: Point, c: int)
    requires
        out.size == src.meta.size,
        out.size.width <= COORD_LIMIT,
        out.size.height <= COORD_LIMIT,
        out.channels() == src.meta.channels(),
        pt.within(out.size),
    ensures
        verdict(
            &Transform::spec_rotate(2, src.meta.size.width - 1, src.meta.size.height - 1),
            seq![src],
            out,
        ) is None,
        Transform::spec_rotate(2, src.meta.size.width - 1, src.meta.size.height - 1).level_at(
            pt,
            c,
            seq![src],
            out,
        ) == src.level(
            Point {
                x: (src.meta.size.width - 1 - pt.x) as usize,
                y: (src.meta.size.height - 1 - pt.y) as usize,
            },
            c,
        ),
{
    let w = src.meta.size.width as int;
    let h = src.meta.size.height as int;
    let t = Transform::spec_rotate(2, w - 1, h - 1);
    let m = t.matrix;
    assert(quarter_cos(2) == -1 && quarter_sin(2) == 0);
    lemma_times(w - 1, 1 - quarter_cos(2), 2);
    lemma_times(h - 1, 1 - quarter_cos(2), 2);
    lemma_times(w - 1, quarter_sin(2), 0);
    lemma_times(h - 1, quarter_sin(2), 0);
    assert(m.terms() == (-2int, 0int, 0int, -2int, 2 * (w - 1), 2 * (h - 1)));
    assert forall|q: Point| q.within(out.size) implies (#[trigger] t.refusal_at(
        q,
        seq![src],
        out,
    )) is None && t.lower(q) == t.upper(q) && t.lower(q) == (Point {
        x: (w - 1 - q.x) as usize,
        y: (h - 1 - q.y) as usize,
    }) by {
        lemma_times(q.x as int, m.m11 as int, -2);
        lemma_times(q.y as int, m.m21 as int, 0);
        lemma_times(q.x as int, m.m12 as int, 0);
        lemma_times(q.y as int, m.m22 as int, -2);
        assert(m.apply_x(q.x as int, q.y as int) == 2 * (w - 1 - q.x));
        assert(m.apply_y(q.x as int, q.y as int) == 2 * (h - 1 - q.y));
        assert(t.wf());
        assert(seq![src].len() == 1 && seq![src][0] == src);
        assert(t.floor_x(q) == w - 1 - q.x);
        assert(t.ceil_x(q) == w - 1 - q.x);
        assert(t.floor_y(q) == h - 1 - q.y);
        assert(t.ceil_y(q) == h - 1 - q.y);
        assert(t.samples_inside(q, src.meta.size));
    }
    lemma_verdict(&t, seq![src], out);
}

/// Three quarter turns of an image of `w` by `h` pixels into a destination
/// of `h` by `w` pixels refuse no pixel, and the output pixel at `(x, y)`
/// is the input pixel at `(w - 1 - y, x)`.
pub proof fn lemma_rotate270_inside(src: ImageView, out: Meta, pt: Point, c: int)
    requires
        out.size.width == src.meta.size.height,
        out.size.height == src.meta.size.width,
        out.size.width <= COORD_LIMIT,
        out.size.height <= COORD_LIMIT,
        out.channels() == src.meta.channels(),
        pt.within(out.size),
    ensures
        verdict(
            &Transform::spec_rotate(3, out.size.height - 1, src.meta.size.width - 1),
            seq![src],
            out,
        ) is None,
        Transform::spec_rotate(3, out.size.height - 1, src.meta.size.width - 1).level_at(
            pt,
            c,
            seq![src],
            out,
        ) == src.level(Point { x: (src.meta.size.width - 1 - pt.y) as usize, y: pt.x }, c),
{
    let w = src.meta.size.width as int;
    let t = Transform::spec_rotate(3, w - 1, w - 1);
    let m = t.matrix;
    assert(quarter_cos(3) == 0 && quarter_sin(3) == 1);
    lemma_times(w - 1, 1 - quarter_cos(3), 1);
    lemma_times(w - 1, quarter_sin(3), 1);
    assert(m.terms() == (0int, 2int, -2int, 0int, 2 * (w - 1), 0int));
    assert forall|q: Point| q.within(out.size) implies (#[trigger] t.refusal_at(
        q,
        seq![src],
        out,
    )) is None && t.lower(q) == t.upper(q) && t.lower(q) == (Point {
        x: (w - 1 - q.y) as usize,
        y: q.x,
    }) by {
        lemma_times(q.x as int, m.m11 as int, 0);
        lemma_times(q.y as int, m.m21 as int, -2);
        lemma_times(q.x as int, m.m12 as int, 2);
        lemma_times(q.y as int, m.m22 as int, 0);
        assert(m.apply_x(q.x as int, q.y as int) == 2 * (w - 1 - q.y));
        assert(m.apply_y(q.x as int, q.y as int) == 2 * q.x);
        assert(t.wf());
        assert(seq![src].len() == 1 && seq![src][0] == src);
        assert(t.floor_x(q) == w - 1 - q.y);
        assert(t.ceil_x(q) == w - 1 - q.y);
        assert(t.floor_y(q) == q.x);
        assert(t.ceil_y(q) == q.x);
        assert(t.samples_inside(q, src.meta.size));
    }
    lemma_verdict(&t, seq![src], out);
}

/// A quarter turn maps every output pixel onto one input pixel exactly:
/// the floor and the ceiling of the position sampled for `(x, y)` are both
/// `(y, h - 1 - x)`.
pub proof fn lemma_rotate90_exact(src: ImageView, out: Meta, pt: Point)
    requires
        out.size.width == src.meta.size.height,
        out.size.height == src.meta.size.width,
        out.size.width <= COORD_LIMIT,
        out.size.height <= COORD_LIMIT,
        pt.within(out.size),
    ensures
        Transform::spec_rotate(1, out.size.width - 1, src.meta.size.height - 1).lower(pt)
            == quarter_turn_source(pt, src.meta.size.height as int),
        Transform::spec_rotate(1, out.size.width - 1, src.meta.size.height - 1).upper(pt)
            == quarter_turn_source(pt, src.meta.size.height as int),
        quarter_turn_source(pt, src.meta.size.height as int).within(src.meta.size),
{
    let h = src.meta.size.height as int;
    let t = Transform::spec_rotate(1, h - 1, h - 1);
    let m = t.matrix;
    assert(quarter_cos(1) == 0 && quarter_sin(1) == -1);
    lemma_times(h - 1, 1 - quarter_cos(1), 1);
    lemma_times(h - 1, quarter_sin(1), -1);
    assert(m.terms() == (0int, -2int, 2int, 0int, 0int, 2 * (h - 1)));
    lemma_times(pt.x as int, m.m11 as int, 0);
    lemma_times(pt.y as int, m.m21 as int, 2);
    lemma_times(pt.x as int, m.m12 as int, -2);
    lemma_times(pt.y as int, m.m22 as int, 0);
    assert(m.apply_x(pt.x as int, pt.y as int) == 2 * pt.y);
    assert(m.apply_y(pt.x as int, pt.y as int) == 2 * (h - 1 - pt.x));
    assert(t.floor_x(pt) == pt.y);
    assert(t.ceil_x(pt) == pt.y);
    assert(t.floor_y(pt) == h - 1 - pt.x);
    assert(t.ceil_y(pt) == h - 1 - pt.x);
}

/// The image that a quarter turn gives: in a destination that stores the
/// samples of the input, the pixel at `(x, y)` is the input pixel at
/// `(y, h - 1 - x)`.
pub proof fn lemma_rotate90_image(src: ImageView, out: Meta, pt: Point, c: int)
    requires
        src.valid(),
        out.size.width == src.meta.size.height,
        out.size.height == src.meta.size.width,
        out.size.width <= COORD_LIMIT,
        out.size.height <= COORD_LIMIT,
        out.kind == src.meta.kind,
        out.color == src.meta.color,
        pt.within(out.size),
        0 <= c < out.channels(),
    ensures
        spec_eval(
            &Transform::spec_rotate(1, out.size.width - 1, src.meta.size.height - 1),
            seq![src],
            out,
        ).level(pt, c) == src.level(quarter_turn_source(pt, src.meta.size.height as int), c),
{
    let t = Transform::spec_rotate(1, out.size.width - 1, src.meta.size.height - 1);
    let from = quarter_turn_source(pt, src.meta.size.height as int);
    lemma_rotate90_inside(src, out, pt, c);
    lemma_rotate90_exact(src, out, pt);
    ImageView::lemma_raster_level(
        out,
        |q: Point, k: int| out.kind.quantize(t.level_at(q, k, seq![src], out)),
        pt,
        c,
    );
    src.meta.lemma_join(from, c);
    let l = src.levels[src.meta.spec_index(from) + c];
    assert(out.kind.quantize(l) == l);
}

/// After a quarter turn each corner of the destination holds the corner of
/// the input that a clockwise turn carries onto it.
pub proof fn lemma_rotate90_corners(src: ImageView, out: Meta, c: int)
    requires
        src.valid(),
        src.meta.size.width >= 1,
        src.meta.size.height >= 1,
        out.size.width == src.meta.size.height,
        out.size.height == src.meta.size.width,
        out.size.width <= COORD_LIMIT,
        out.size.height <= COORD_LIMIT,
        out.kind == src.meta.kind,
        out.color == src.meta.color,
        0 <= c < out.channels(),
    ensures
        ({
            let w = src.meta.size.width;
            let h = src.meta.size.height;
            let turned = spec_eval(&Transform::spec_rotate(1, h - 1, h - 1), seq![src], out);
            &&& turned.level(Point { x: (h - 1) as usize, y: 0 }, c) == src.level(
                Point { x: 0, y: 0 },
                c,
            )
            &&& turned.level(Point { x: (h - 1) as usize, y: (w - 1) as usize }, c) == src.level(
                Point { x: (w - 1) as usize, y: 0 },
                c,
            )
            &&& turned.level(Point { x: 0, y: (w - 1) as usize }, c) == src.level(
                Point { x: (w - 1) as usize, y: (h - 1) as usize },
                c,
            )
            &&& turned.level(Point { x: 0, y: 0 }, c) == src.level(
                Point { x: 0, y: (h - 1) as usize },
                c,
            )
        }),
{
    let w = src.meta.size.width;
    let h = src.meta.size.height;
    lemma_rotate90_image(src, out, Point { x: (h - 1) as usize, y: 0 }, c);
    lemma_rotate90_image(src, out, Point { x: (h - 1) as usize, y: (w - 1) as usize }, c);
    lemma_rotate90_image(src, out, Point { x: 0, y: (w - 1) as usize }, c);
    lemma_rotate90_image(src, out, Point { x: 0, y: 0 }, c);
}

/// A half turn is its own inverse: turning an image by a half turn and
/// turning the result by a half turn, each into an image of the shape of
/// the first, gives the first image back.
pub proof fn lemma_rotate180_involution(iv: ImageView)
    requires
        iv.valid(),
        iv.meta.size.width <= COORD_LIMIT,
        iv.meta.size.height <= COORD_LIMIT,
    ensures
        spec_eval(
            &Transform::spec_rotate(2, iv.meta.size.width - 1, iv.meta.size.height - 1),
            seq![
                spec_eval(
                    &Transform::spec_rotate(2, iv.meta.size.width - 1, iv.meta.size.height - 1),
                    seq![iv],
                    iv.meta,
                ),
            ],
            iv.meta,
        ) == iv,
{
    let m = iv.meta;
    let w = m.size.width as int;
    let h = m.size.height as int;
    let t = Transform::spec_rotate(2, w - 1, h - 1);
    let once = spec_eval(&t, seq![iv], m);
    let twice = spec_eval(&t, seq![once], m);
    assert forall|pt: Point, c: int| pt.within(m.size) && 0 <= c < m.channels() implies twice.level(
        pt,
        c,
    ) == iv.level(pt, c) by {
        let back = Point { x: (w - 1 - pt.x) as usize, y: (h - 1 - pt.y) as usize };
        lemma_rotate180_inside(once, m, pt, c);
        lemma_rotate180_inside(iv, m, back, c);
        ImageView::lemma_raster_level(
            m,
            |q: Point, k: int| m.kind.quantize(t.level_at(q, k, seq![once], m)),
            pt,
            c,
        );
        ImageView::lemma_raster_level(
            m,
            |q: Point, k: int| m.kind.quantize(t.level_at(q, k, seq![iv], m)),
            back,
            c,
        );
        m.lemma_join(pt, c);
        let l = iv.levels[m.spec_index(pt) + c];
        assert(m.kind.quantize(l) == l);
        assert(once.level(back, c) == l);
    }
    twice.lemma_pointwise_equal(iv);
}

/// Scaling by one changes nothing: the pixel sampled for `pt` is the pixel
/// at `pt`, floor and ceiling alike, and no pixel of the input is refused.
pub proof fn lemma_scale_identity(src: ImageView, out: Meta, pt: Point, c: int)
    requires
        out.channels() == src.meta.channels(),
        pt.within(src.meta.size),
        pt.x <= COORD_LIMIT,
        pt.y <= COORD_LIMIT,
    ensures
        Transform::spec_scale(Factor(1000), Factor(1000)).lower(pt) == pt,
        Transform::spec_scale(Factor(1000), Factor(1000)).upper(pt) == pt,
        Transform::spec_scale(Factor(1000), Factor(1000)).refusal_at(pt, seq![src], out) is None,
        Transform::spec_scale(Factor(1000), Factor(1000)).level_at(pt, c, seq![src], out)
            == src.level(pt, c),
{
    let t = Transform::spec_scale(Factor(1000), Factor(1000));
    let m = t.matrix;
    assert(pt.x * m.m11 == 1000 * pt.x && pt.y * m.m21 == 0 && pt.x * m.m12 == 0 && pt.y * m.m22
        == 1000 * pt.y) by (nonlinear_arith)
        requires
            m.m11 == 1000,
            m.m21 == 0,
            m.m12 == 0,
            m.m22 == 1000,
    ;
    assert(m.apply_x(pt.x as int, pt.y as int) == 1000 * pt.x);
    assert(m.apply_y(pt.x as int, pt.y as int) == 1000 * pt.y);
    lemma_thousandths(m.apply_x(pt.x as int, pt.y as int), t.dx as int, pt.x as int);
    lemma_thousandths(m.apply_y(pt.x as int, pt.y as int), t.dy as int, pt.y as int);
    assert(t.floor_x(pt) == pt.x);
    assert(t.ceil_x(pt) == pt.x);
    assert(t.floor_y(pt) == pt.y);
    assert(t.ceil_y(pt) == pt.y);
    assert(t.wf());
    assert(seq![src].len() == 1 && seq![src][0] == src);
}

proof fn lemma_thousandths(n: int, d: int, x: int)
    requires
        n == 1000 * x,
        d == 1000,
    ensures
        n / d == x,
        -((-n) / d) == x,
{
}

} // verus!
