//! The order of the stages of a pipeline matters.

use crate::compose::AndThen;
use crate::filter::{spec_eval, FilterModel};
use crate::geometry::Point;
use crate::image::ImageView;
use crate::sample::{SampleType, LEVEL_MAX};
use crate::tone::{Brightness, Contrast, Factor};
use vstd::prelude::*;

verus! {

/// The level that [`Brightness`] adds.
pub open spec fn offset_of(b: Factor) -> int {
    LEVEL_MAX * b.0 / 1000
}

proof fn lemma_scaled_sum(l: int, off: int, c: int)
    requires
        0 <= l,
        0 <= off,
        2000 <= c,
    ensures
        (l + off) * c / 1000 >= l * c / 1000 + 2 * off,
        l * c / 1000 >= l,
{
    assert((l + off) * c >= l * c + 2000 * off && l * c >= 1000 * l) by (nonlinear_arith)
        requires
            0 <= l,
            0 <= off,
            2000 <= c,
    ;
}

/// Composition is not commutative: where contrast at least doubles the
/// levels and brightness adds at least one level, raising the contrast
/// first gives a channel a lower level than raising the brightness first,
/// in every channel that is not clamped on the way.
pub proof fn lemma_contrast_brightness_order(
    c: Factor,
    b: Factor,
    iv: ImageView,
    pt: Point,
    ch: int,
)
    requires
        iv.valid(),
        iv.meta.kind == SampleType::U16,
        pt.within(iv.meta.size),
        0 <= ch < iv.meta.channels(),
        c.0 >= 2000,
        offset_of(b) >= 1,
        (iv.level(pt, ch) + offset_of(b)) * c.0 / 1000 <= LEVEL_MAX,
    ensures
        spec_eval(&AndThen { first: Contrast(c), second: Brightness(b) }, seq![iv], iv.meta).level(
            pt,
            ch,
        ) == iv.level(pt, ch) * c.0 / 1000 + offset_of(b),
        spec_eval(&AndThen { first: Brightness(b), second: Contrast(c) }, seq![iv], iv.meta).level(
            pt,
            ch,
        ) == (iv.level(pt, ch) + offset_of(b)) * c.0 / 1000,
        spec_eval(&AndThen { first: Contrast(c), second: Brightness(b) }, seq![iv], iv.meta).level(
            pt,
            ch,
        ) < spec_eval(
            &AndThen { first: Brightness(b), second: Contrast(c) },
            seq![iv],
            iv.meta,
        ).level(pt, ch),
{
    let m = iv.meta;
    let l = iv.level(pt, ch);
    let off = offset_of(b);
    m.lemma_join(pt, ch);
    assert(0 <= l <= LEVEL_MAX);
    lemma_scaled_sum(l, off, c.0 as int);
    let cb = AndThen { first: Contrast(c), second: Brightness(b) };
    let bc = AndThen { first: Brightness(b), second: Contrast(c) };
    let after_c = spec_eval(&Contrast(c), seq![iv], m);
    let after_b = spec_eval(&Brightness(b), seq![iv], m);
    ImageView::lemma_raster_level(
        m,
        |q: Point, k: int| m.kind.quantize(Contrast(c).level_at(q, k, seq![iv], m)),
        pt,
        ch,
    );
    ImageView::lemma_raster_level(
        m,
        |q: Point, k: int| m.kind.quantize(Brightness(b).level_at(q, k, seq![iv], m)),
        pt,
        ch,
    );
    assert(after_c.level(pt, ch) == l * c.0 / 1000);
    assert(after_b.level(pt, ch) == l + off);
    ImageView::lemma_raster_level(
        m,
        |q: Point, k: int| m.kind.quantize(cb.level_at(q, k, seq![iv], m)),
        pt,
        ch,
    );
    ImageView::lemma_raster_level(
        m,
        |q: Point, k: int| m.kind.quantize(bc.level_at(q, k, seq![iv], m)),
        pt,
        ch,
    );
}

} // verus!
