//! Pipelines: one filter applied to the result of another.

use crate::error::Error;
use crate::filter::{
    all_wf, lemma_scan_same, lemma_verdict_rows, row_start, spec_eval, verdict, verdict_rows,
    views, Filter, FilterModel,
};
use crate::geometry::Point;
use crate::image::{Image, ImageView, Meta};
use vstd::prelude::*;

verus! {

/// The pipeline of two filters: `first` is evaluated into an intermediate
/// image of the destination's shape, and `second` is evaluated with that
/// image as its only input.
#[derive(Debug)]
pub struct AndThen<A, B> {
    pub first: A,
    pub second: B,
}

/// The pipeline that applies `first` and then `second`.
pub fn and_then<A: Filter, B: Filter>(first: A, second: B) -> (f: AndThen<A, B>)
    ensures
        f.first == first,
        f.second == second,
{
    AndThen { first, second }
}

impl<A: FilterModel, B: FilterModel> AndThen<A, B> {
    /// The intermediate image of the pipeline.
    pub open spec fn between(&self, inputs: Seq<ImageView>, out: Meta) -> ImageView {
        spec_eval(&self.first, inputs, out)
    }
}

impl<A: FilterModel, B: FilterModel> FilterModel for AndThen<A, B> {
    open spec fn refusal_at(&self, pt: Point, inputs: Seq<ImageView>, out: Meta) -> Option<Error> {
        match verdict(&self.first, inputs, out) {
            Some(e) => Some(e),
            None => self.second.refusal_at(pt, seq![self.between(inputs, out)], out),
        }
    }

    open spec fn level_at(&self, pt: Point, c: int, inputs: Seq<ImageView>, out: Meta) -> int {
        self.second.level_at(pt, c, seq![self.between(inputs, out)], out)
    }
}

impl<A: Filter, B: Filter> AndThen<A, B> {
    /// Evaluates the first stage into a fresh image of shape `out`.
    fn stage(&self, inputs: &[&Image], out: Meta) -> (r: Result<Image, Error>)
        requires
            all_wf(inputs@),
            out.addressable(),
        ensures
            r matches Ok(tmp) ==> tmp.wf() && tmp@ == self.between(views(inputs@), out) && verdict(
                &self.first,
                views(inputs@),
                out,
            ) is None,
            r matches Err(e) ==> verdict(&self.first, views(inputs@), out) == Some(e),
    {
        let mut tmp = match Image::new(out.kind, out.color, out.size) {
            Ok(tmp) => tmp,
            Err(e) => {
                return Err(e);
            },
        };
        match self.first.eval(inputs, &mut tmp) {
            Ok(()) => Ok(tmp),
            Err(e) => Err(e),
        }
    }

    /// With the first stage done, the pipeline does on `inputs` what the
    /// second stage does on the intermediate image.
    proof fn lemma_second_stage(&self, inputs: Seq<ImageView>, out: Meta, y0: int, y1: int)
        requires
            verdict(&self.first, inputs, out) is None,
            0 <= y0,
            y1 <= out.size.height,
        ensures
            verdict_rows(self, inputs, out, y0, y1) == verdict_rows(
                &self.second,
                seq![self.between(inputs, out)],
                out,
                y0,
                y1,
            ),
            spec_eval(self, inputs, out) == spec_eval(
                &self.second,
                seq![self.between(inputs, out)],
                out,
            ),
    {
        let mid = seq![self.between(inputs, out)];
        lemma_scan_same(self, inputs, &self.second, mid, out, 0, y0, y1);
        assert(spec_eval(self, inputs, out).levels =~= spec_eval(&self.second, mid, out).levels);
    }
}

/// The list that holds one image.
pub fn single<'a>(img: &'a Image) -> (v: Vec<&'a Image>)
    ensures
        v@ == seq![img],
        views(v@) == seq![img@],
        img.wf() ==> all_wf(v@),
{
    let mut v: Vec<&'a Image> = Vec::new();
    v.push(img);
    assert(v@ =~= seq![img]);
    assert(views(v@) =~= seq![img@]);
    v
}

impl Image {
    /// Evaluates `filter` with the image as its only input and as its
    /// destination. The filter reads a copy of the image as it was before
    /// the call, so a pixel may depend on any pixel of it.
    pub fn run_in_place<F: Filter>(&mut self, filter: &F) -> (r: Result<(), Error>)
        requires
            old(self).wf(),
        ensures
            final(self).wf(),
            final(self).meta == old(self).meta,
            r == crate::filter::outcome(verdict(filter, seq![old(self)@], old(self).meta)),
            r is Ok ==> final(self)@ == spec_eval(filter, seq![old(self)@], old(self).meta),
    {
        let before = self.duplicate();
        let input = single(&before);
        filter.eval(input.as_slice(), self)
    }
}

impl<A: Filter, B: Filter> Filter for AndThen<A, B> {
    fn compute_at(&self, pt: Point, inputs: &[&Image], out: Meta, px: &mut Vec<i64>) -> (r:
        Result<(), Error>) {
        let tmp = match self.stage(inputs, out) {
            Ok(tmp) => tmp,
            Err(e) => {
                return Err(e);
            },
        };
        let mid = single(&tmp);
        self.second.compute_at(pt, mid.as_slice(), out, px)
    }

    fn eval_rows(&self, inputs: &[&Image], dest: &mut Image, y0: usize, y1: usize) -> (r: Result<
        (),
        Error,
    >) {
        let meta = dest.meta;
        if y0 == y1 || meta.size.width == 0 {
            proof {
                lemma_verdict_rows(self, views(inputs@), meta, y0 as int, y1 as int);
                crate::filter::lemma_row_start(meta, y0 as int);
                crate::filter::lemma_row_start(meta, y1 as int);
                assert(row_start(meta, y0 as int) == row_start(meta, y1 as int)) by {
                    if y0 != y1 {
                        assert(row_start(meta, y0 as int) == 0 && row_start(meta, y1 as int) == 0)
                            by (nonlinear_arith)
                            requires
                                meta.size.width == 0,
                        ;
                    }
                }
                assert(dest@.levels =~= crate::filter::splice(
                    dest@.levels,
                    spec_eval(self, views(inputs@), meta).levels,
                    row_start(meta, y0 as int),
                    row_start(meta, y1 as int),
                ));
            }
            return Ok(());
        }
        let tmp = match self.stage(inputs, meta) {
            Ok(tmp) => tmp,
            Err(e) => {
                assert(self.refusal_at(Point { x: 0, y: y0 }, views(inputs@), meta) == Some(e));
                return Err(e);
            },
        };
        let mid = single(&tmp);
        proof {
            self.lemma_second_stage(views(inputs@), meta, y0 as int, y1 as int);
        }
        self.second.eval_rows(mid.as_slice(), dest, y0, y1)
    }
}

/// The pipeline of two filters does on its inputs what its second stage
/// does on the result of its first stage.
pub proof fn lemma_and_then<A: FilterModel, B: FilterModel>(
    a: A,
    b: B,
    inputs: Seq<ImageView>,
    out: Meta,
)
    ensures
        spec_eval(&AndThen { first: a, second: b }, inputs, out) == spec_eval(
            &b,
            seq![spec_eval(&a, inputs, out)],
            out,
        ),
        verdict(&AndThen { first: a, second: b }, inputs, out) == match verdict(&a, inputs, out) {
            Some(e) => Some(e),
            None => verdict(&b, seq![spec_eval(&a, inputs, out)], out),
        },
{
    let f = AndThen { first: a, second: b };
    let mid = seq![spec_eval(&a, inputs, out)];
    assert(spec_eval(&f, inputs, out).levels =~= spec_eval(&b, mid, out).levels);
    match verdict(&a, inputs, out) {
        Some(e) => {
            crate::filter::lemma_verdict(&a, inputs, out);
            let refused = choose|pt: Point|
                pt.within(out.size) && !((#[trigger] a.refusal_at(pt, inputs, out)) is None);
            assert(refused.within(out.size));
            let first = Point { x: 0, y: 0 };
            assert(first.within(out.size));
            assert(f.refusal_at(first, inputs, out) == Some(e));
        },
        None => {
            lemma_scan_same(&f, inputs, &b, mid, out, 0, 0, out.size.height as int);
        },
    }
}

/// Composition is associative: applying `a` and then `b`, and then `c`, is
/// applying `a`, and then `b` and then `c`. Both pipelines fail on the
/// same inputs with the same error, and succeed with the same image.
pub proof fn lemma_and_then_associative<A: FilterModel, B: FilterModel, C: FilterModel>(
    a: A,
    b: B,
    c: C,
    inputs: Seq<ImageView>,
    out: Meta,
)
    ensures
        verdict(
            &AndThen { first: AndThen { first: a, second: b }, second: c },
            inputs,
            out,
        ) == verdict(&AndThen { first: a, second: AndThen { first: b, second: c } }, inputs, out),
        spec_eval(
            &AndThen { first: AndThen { first: a, second: b }, second: c },
            inputs,
            out,
        ) == spec_eval(
            &AndThen { first: a, second: AndThen { first: b, second: c } },
            inputs,
            out,
        ),
{
    let ab = AndThen { first: a, second: b };
    let bc = AndThen { first: b, second: c };
    let after_a = seq![spec_eval(&a, inputs, out)];
    lemma_and_then(a, b, inputs, out);
    lemma_and_then(ab, c, inputs, out);
    lemma_and_then(a, bc, inputs, out);
    lemma_and_then(b, c, after_a, out);
}

} // verus!
