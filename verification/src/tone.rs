//! Pointwise filters: each output pixel depends on the input pixel at the
//! same position only.

use crate::error::Error;
use crate::filter::{
    all_wf, lemma_verdict, spec_eval, verdict, views, Filter, FilterModel,
};
use crate::geometry::Point;
use crate::image::{Image, ImageView, Meta};
use crate::sample::{lemma_sample_round_trip, LEVEL_MAX};
use vstd::prelude::*;

verus! {

/// A factor in thousandths: `Factor(1250)` stands for 1.25.
#[derive(Clone, Copy, Debug, PartialEq, Eq, Structural)]
pub struct Factor(pub i32);

/// Why a pointwise filter cannot compute the pixel at `pt`: it has no
/// input, its input has another number of channels than the output, or
/// its input has no pixel at `pt`.
pub open spec fn pointwise_refusal(pt: Point, inputs: Seq<ImageView>, out: Meta) -> Option<Error> {
    if inputs.len() == 0 {
        Some(Error::Mismatch)
    } else if inputs[0].meta.channels() != out.channels() {
        Some(Error::Mismatch)
    } else if !pt.within(inputs[0].meta.size) {
        Some(Error::OutOfBounds)
    } else {
        None
    }
}

/// The input image of a pointwise filter, or its refusal.
pub fn pointwise_source<'a>(pt: Point, inputs: &'a [&'a Image], out: Meta) -> (r: Result<
    &'a Image,
    Error,
>)
    requires
        all_wf(inputs@),
    ensures
        r is Ok <==> pointwise_refusal(pt, views(inputs@), out) is None,
        r matches Err(e) ==> pointwise_refusal(pt, views(inputs@), out) == Some(e),
        r matches Ok(src) ==> src.wf() && src@ == views(inputs@)[0] && pt.within(src.meta.size)
            && src.meta.channels() == out.channels(),
{
    if inputs.len() == 0 {
        return Err(Error::Mismatch);
    }
    let src: &Image = inputs[0];
    assert(src@ == views(inputs@)[0]);
    if src.meta.num_channels() != out.num_channels() {
        return Err(Error::Mismatch);
    }
    if !src.in_bounds(pt) {
        return Err(Error::OutOfBounds);
    }
    Ok(src)
}

/// `a / b` rounded towards negative infinity.
pub fn div_floor(a: i64, b: i64) -> (q: i64)
    requires
        b > 0,
    ensures
        q == a / b,
{
    if a >= 0 {
        a / b
    } else {
        let n: i64 = -(a + 1);
        let k: i64 = n / b;
        proof {
            vstd::arithmetic::div_mod::lemma_fundamental_div_mod(n as int, b as int);
            let r = (n as int) % (b as int);
            assert(a as int == (b as int) * (-(k as int) - 1) + ((b as int) - 1 - r))
                by (nonlinear_arith)
                requires
                    n as int == (b as int) * (k as int) + r,
                    n as int == -(a as int + 1),
            ;
            vstd::arithmetic::div_mod::lemma_fundamental_div_mod_converse(
                a as int,
                b as int,
                -(k as int) - 1,
                (b as int) - 1 - r,
            );
        }
        -k - 1
    }
}

/// Replaces every channel by its complement: full intensity minus the
/// level.
#[derive(Clone, Copy, Debug)]
pub struct Invert;

impl FilterModel for Invert {
    open spec fn refusal_at(&self, pt: Point, inputs: Seq<ImageView>, out: Meta) -> Option<Error> {
        pointwise_refusal(pt, inputs, out)
    }

    open spec fn level_at(&self, pt: Point, c: int, inputs: Seq<ImageView>, out: Meta) -> int {
        LEVEL_MAX - inputs[0].level(pt, c)
    }
}

impl Filter for Invert {
    fn compute_at(&self, pt: Point, inputs: &[&Image], out: Meta, px: &mut Vec<i64>) -> (r:
        Result<(), Error>) {
        let src = match pointwise_source(pt, inputs, out) {
            Ok(src) => src,
            Err(e) => {
                return Err(e);
            },
        };
        let ch = px.len();
        let mut c: usize = 0;
        while c < ch
            invariant
                src.wf(),
                pt.within(src.meta.size),
                ch == src.meta.channels(),
                px@.len() == ch,
                c <= ch,
                forall|k: int| 0 <= k < c ==> px@[k] == LEVEL_MAX - src@.level(pt, k),
            decreases ch - c,
        {
            let level = src.get_f(pt, c);
            px.set(c, LEVEL_MAX - level);
            c += 1;
        }
        Ok(())
    }
}

/// Multiplies every channel by a factor.
#[derive(Clone, Copy, Debug)]
pub struct Contrast(pub Factor);

impl FilterModel for Contrast {
    open spec fn refusal_at(&self, pt: Point, inputs: Seq<ImageView>, out: Meta) -> Option<Error> {
        pointwise_refusal(pt, inputs, out)
    }

    open spec fn level_at(&self, pt: Point, c: int, inputs: Seq<ImageView>, out: Meta) -> int {
        inputs[0].level(pt, c) * self.0.0 / 1000
    }
}

impl Filter for Contrast {
    fn compute_at(&self, pt: Point, inputs: &[&Image], out: Meta, px: &mut Vec<i64>) -> (r:
        Result<(), Error>) {
        let src = match pointwise_source(pt, inputs, out) {
            Ok(src) => src,
            Err(e) => {
                return Err(e);
            },
        };
        let factor: i64 = self.0.0 as i64;
        let ch = px.len();
        let mut c: usize = 0;
        while c < ch
            invariant
                src.wf(),
                pt.within(src.meta.size),
                ch == src.meta.channels(),
                px@.len() == ch,
                c <= ch,
                factor == self.0.0,
                forall|k: int| 0 <= k < c ==> px@[k] == src@.level(pt, k) * self.0.0 / 1000,
            decreases ch - c,
        {
            let level = src.get_f(pt, c);
            assert(-0x8000_0000 * 65535 <= level * factor <= 0x8000_0000 * 65535)
                by (nonlinear_arith)
                requires
                    0 <= level <= 65535,
                    -0x8000_0000 <= factor < 0x8000_0000,
            ;
            px.set(c, div_floor(level * factor, 1000));
            c += 1;
        }
        Ok(())
    }
}

/// Adds to every channel a fraction of full intensity.
#[derive(Clone, Copy, Debug)]
pub struct Brightness(pub Factor);

impl FilterModel for Brightness {
    open spec fn refusal_at(&self, pt: Point, inputs: Seq<ImageView>, out: Meta) -> Option<Error> {
        pointwise_refusal(pt, inputs, out)
    }

    open spec fn level_at(&self, pt: Point, c: int, inputs: Seq<ImageView>, out: Meta) -> int {
        inputs[0].level(pt, c) + LEVEL_MAX * self.0.0 / 1000
    }
}

impl Filter for Brightness {
    fn compute_at(&self, pt: Point, inputs: &[&Image], out: Meta, px: &mut Vec<i64>) -> (r:
        Result<(), Error>) {
        let src = match pointwise_source(pt, inputs, out) {
            Ok(src) => src,
            Err(e) => {
                return Err(e);
            },
        };
        let offset: i64 = div_floor(LEVEL_MAX * (self.0.0 as i64), 1000);
        let ch = px.len();
        let mut c: usize = 0;
        while c < ch
            invariant
                src.wf(),
                pt.within(src.meta.size),
                ch == src.meta.channels(),
                px@.len() == ch,
                c <= ch,
                offset == LEVEL_MAX * self.0.0 / 1000,
                forall|k: int| 0 <= k < c ==> px@[k] == src@.level(pt, k) + offset,
            decreases ch - c,
        {
            let level = src.get_f(pt, c);
            px.set(c, level + offset);
            c += 1;
        }
        Ok(())
    }
}

/// Inverting twice gives the image back: for every image `iv`, the inverse
/// of the inverse of `iv`, each stored in an image of the shape of `iv`, is
/// `iv`.
pub proof fn lemma_invert_involution(iv: ImageView)
    requires
        iv.valid(),
    ensures
        verdict(&Invert, seq![iv], iv.meta) is None,
        spec_eval(&Invert, seq![spec_eval(&Invert, seq![iv], iv.meta)], iv.meta) == iv,
{
    let m = iv.meta;
    let once = spec_eval(&Invert, seq![iv], m);
    let twice = spec_eval(&Invert, seq![once], m);
    assert forall|pt: Point, c: int| pt.within(m.size) && 0 <= c < m.channels() implies twice.level(
        pt,
        c,
    ) == iv.level(pt, c) by {
        m.lemma_join(pt, c);
        let i = m.spec_index(pt) + c;
        let l = iv.levels[i];
        assert(m.kind.quantize(l) == l);
        lemma_sample_round_trip(m.kind, m.kind.sample_of(l));
        lemma_sample_round_trip(m.kind, m.kind.max_sample() - m.kind.sample_of(l));
        assert(once.level(pt, c) == LEVEL_MAX - l);
        assert(twice.level(pt, c) == l);
    }
    twice.lemma_pointwise_equal(iv);
    lemma_verdict(&Invert, seq![iv], m);
}

} // verus!
