//! Cropping: the destination is a region of the input.

use crate::error::Error;
use crate::filter::{
    lemma_row_start, lemma_verdict, row_start, spec_eval, splice, verdict, views, Filter,
    FilterModel,
};
use crate::geometry::{Point, Region};
use crate::image::{Image, ImageView, Meta};
use vstd::prelude::*;

verus! {

/// Copies a region of the input into a destination of the extent of the
/// region.
#[derive(Clone, Copy, Debug)]
pub struct Crop(pub Region);

impl Crop {
    /// The input pixel that the output pixel at `pt` is copied from.
    pub open spec fn source(&self, pt: Point) -> Point {
        Point { x: (pt.x + self.0.origin.x) as usize, y: (pt.y + self.0.origin.y) as usize }
    }
}

impl FilterModel for Crop {
    open spec fn refusal_at(&self, pt: Point, inputs: Seq<ImageView>, out: Meta) -> Option<Error> {
        if inputs.len() == 0 {
            Some(Error::Mismatch)
        } else if inputs[0].meta.channels() != out.channels() || out.size != self.0.size {
            Some(Error::Mismatch)
        } else if !self.0.fits(inputs[0].meta.size) {
            Some(Error::OutOfBounds)
        } else {
            None
        }
    }

    open spec fn level_at(&self, pt: Point, c: int, inputs: Seq<ImageView>, out: Meta) -> int {
        inputs[0].level(self.source(pt), c)
    }
}

impl Filter for Crop {
    fn compute_at(&self, pt: Point, inputs: &[&Image], out: Meta, px: &mut Vec<i64>) -> (r:
        Result<(), Error>) {
        if inputs.len() == 0 {
            return Err(Error::Mismatch);
        }
        let src: &Image = inputs[0];
        assert(src@ == views(inputs@)[0]);
        if src.meta.num_channels() != out.num_channels() || out.size.width != self.0.size.width
            || out.size.height != self.0.size.height {
            return Err(Error::Mismatch);
        }
        if !self.0.in_bounds(src.meta.size) {
            return Err(Error::OutOfBounds);
        }
        let from = Point { x: pt.x + self.0.origin.x, y: pt.y + self.0.origin.y };
        let ch = px.len();
        let mut c: usize = 0;
        while c < ch
            invariant
                src.wf(),
                from.within(src.meta.size),
                ch == src.meta.channels(),
                px@.len() == ch,
                c <= ch,
                forall|k: int| 0 <= k < c ==> px@[k] == src@.level(from, k),
            decreases ch - c,
        {
            let level = src.get_f(from, c);
            px.set(c, level);
            c += 1;
        }
        Ok(())
    }

    /// Copies the region in one pass: the shape is judged once, before
    /// anything is written, and where the input and the destination store
    /// the same samples the rows are copied sample by sample.
    fn eval(&self, inputs: &[&Image], dest: &mut Image) -> (r: Result<(), Error>) {
        let meta = dest.meta;
        let w = meta.size.width;
        let h = meta.size.height;
        let ghost vs = views(inputs@);
        let ghost before = dest@.levels;
        let ghost target = spec_eval(self, vs, meta).levels;
        proof {
            lemma_verdict(self, vs, meta);
            lemma_row_start(meta, 0);
            lemma_row_start(meta, h as int);
        }
        if w == 0 || h == 0 {
            proof {
                assert(meta.spec_len() == 0) by (nonlinear_arith)
                    requires
                        meta.spec_len() == meta.size.width * meta.size.height * meta.channels(),
                        meta.size.width == 0 || meta.size.height == 0,
                ;
                assert(dest@.levels =~= target);
            }
            return Ok(());
        }
        let ghost first = Point { x: 0, y: 0 };
        assert(first.within(meta.size));
        if inputs.len() == 0 {
            assert(self.refusal_at(first, vs, meta) == Some(Error::Mismatch));
            return Err(Error::Mismatch);
        }
        let src: &Image = inputs[0];
        assert(src@ == vs[0]);
        if src.meta.num_channels() != meta.num_channels() || w != self.0.size.width || h
            != self.0.size.height {
            assert(self.refusal_at(first, vs, meta) == Some(Error::Mismatch));
            return Err(Error::Mismatch);
        }
        if !self.0.in_bounds(src.meta.size) {
            assert(self.refusal_at(first, vs, meta) == Some(Error::OutOfBounds));
            return Err(Error::OutOfBounds);
        }
        assert(self.refusal_at(first, vs, meta) is None);
        if src.meta.kind != meta.kind {
            let r = self.eval_rows(inputs, dest, 0, h);
            proof {
                if r is Ok {
                    assert(dest@.levels =~= target);
                }
            }
            return r;
        }
        let ch = meta.num_channels();
        proof {
            src.lemma_view_valid();
            assert(w * ch <= meta.spec_len()) by (nonlinear_arith)
                requires
                    meta.spec_len() == w * h * ch,
                    h >= 1,
                    w >= 0,
                    ch >= 0,
            ;
            assert(dest@.levels =~= splice(before, target, 0, 0));
        }
        let row = w * ch;
        let mut y: usize = 0;
        while y < h
            invariant
                src.wf(),
                src@.valid(),
                src@ == vs[0],
                vs.len() > 0,
                dest.wf(),
                dest.meta == meta,
                meta == old(dest).meta,
                src.meta.kind == meta.kind,
                src.meta.channels() == meta.channels(),
                self.0.fits(src.meta.size),
                meta.size == self.0.size,
                w == meta.size.width,
                h == meta.size.height,
                w > 0,
                ch == meta.channels(),
                row == w * ch,
                y <= h,
                before.len() == meta.spec_len(),
                target == spec_eval(self, vs, meta).levels,
                dest@.levels == splice(before, target, 0, row_start(meta, y as int)),
            decreases h - y,
        {
            let from = Point { x: self.0.origin.x, y: self.0.origin.y + y };
            let si = src.meta.index(from);
            let di = dest.meta.index(Point { x: 0, y });
            proof {
                lemma_row_start(meta, y as int);
                crate::filter::lemma_pixel_start(meta, Point { x: 0, y });
            }
            let mut k: usize = 0;
            while k < row
                invariant
                    src.wf(),
                    src@.valid(),
                    src@ == vs[0],
                    vs.len() > 0,
                    dest.wf(),
                    dest.meta == meta,
                    meta == old(dest).meta,
                    src.meta.kind == meta.kind,
                    src.meta.channels() == meta.channels(),
                    self.0.fits(src.meta.size),
                    meta.size == self.0.size,
                    w == meta.size.width,
                    h == meta.size.height,
                    ch == meta.channels(),
                    row == w * ch,
                    y < h,
                    k <= row,
                    si == src.meta.spec_index(from),
                    from == (Point { x: self.0.origin.x, y: (self.0.origin.y + y) as usize }),
                    di == row_start(meta, y as int),
                    di + row == row_start(meta, y as int + 1),
                    before.len() == meta.spec_len(),
                    target == spec_eval(self, vs, meta).levels,
                    dest@.levels == splice(before, target, 0, di + k),
                decreases row - k,
            {
                proof {
                    lemma_crop_position(self.0, src@, meta, y as int, k as int);
                    assert(spec_eval(&Crop(self.0), seq![src@], meta).levels =~= target);
                }
                let ghost mid = dest@.levels;
                let sample = src.data.get(si + k);
                dest.data.set(di + k, sample);
                proof {
                    assert(dest@.levels =~= mid.update(
                        di + k,
                        meta.kind.level_of(sample as int),
                    ));
                    assert(dest@.levels =~= splice(before, target, 0, di + k + 1));
                }
                k += 1;
            }
            y += 1;
        }
        proof {
            assert(dest@.levels =~= target);
        }
        Ok(())
    }
}

/// Sample `k` of row `y` of the output of a crop is sample `k` of the row of
/// the input that starts at the origin of the region, `y` rows down.
proof fn lemma_crop_position(region: Region, src: ImageView, out: Meta, y: int, k: int)
    requires
        src.valid(),
        region.fits(src.meta.size),
        out.size == region.size,
        out.channels() == src.meta.channels(),
        out.kind == src.meta.kind,
        0 <= y < out.size.height,
        0 <= k < out.size.width * out.channels(),
    ensures
        0 <= row_start(out, y) + k < out.spec_len(),
        0 <= src.meta.spec_index(
            Point { x: region.origin.x, y: (region.origin.y + y) as usize },
        ) + k < src.meta.spec_len(),
        spec_eval(&Crop(region), seq![src], out).levels[row_start(out, y) + k]
            == src.levels[src.meta.spec_index(
            Point { x: region.origin.x, y: (region.origin.y + y) as usize },
        ) + k],
{
    let ch = out.channels() as int;
    let w = out.size.width as int;
    let x = k / ch;
    let c = k % ch;
    vstd::arithmetic::div_mod::lemma_fundamental_div_mod(k, ch);
    assert(0 <= x < w) by (nonlinear_arith)
        requires
            k == ch * x + c,
            0 <= c < ch,
            0 <= k < w * ch,
    ;
    let pt = Point { x: x as usize, y: y as usize };
    let from = Point { x: (x + region.origin.x) as usize, y: (y + region.origin.y) as usize };
    let start = Point { x: region.origin.x, y: (region.origin.y + y) as usize };
    out.lemma_join(pt, c);
    src.meta.lemma_join(from, c);
    assert(out.spec_index(pt) + c == row_start(out, y) + k) by (nonlinear_arith)
        requires
            out.spec_index(pt) == (y * w + x) * ch,
            row_start(out, y) == y * w * ch,
            k == ch * x + c,
    ;
    let sw = src.meta.size.width as int;
    assert(src.meta.spec_index(from) + c == src.meta.spec_index(start) + k) by (nonlinear_arith)
        requires
            src.meta.spec_index(from) == ((y + region.origin.y) * sw + (x + region.origin.x)) * ch,
            src.meta.spec_index(start) == ((region.origin.y + y) * sw + region.origin.x) * ch,
            k == ch * x + c,
    ;
    let l = src.levels[src.meta.spec_index(from) + c];
    assert(out.kind.quantize(l) == l);
    assert(Crop(region).source(pt) == from);
}

/// A crop into a destination of the extent of the region succeeds where the
/// region lies inside the input, and the output pixel at `pt` is then the
/// input pixel at `pt` moved by the origin of the region: the first output
/// pixel is the input pixel at the origin.
pub proof fn lemma_crop_copies(region: Region, src: ImageView, out: Meta, pt: Point, c: int)
    requires
        src.valid(),
        region.fits(src.meta.size),
        out.size == region.size,
        out.kind == src.meta.kind,
        out.color == src.meta.color,
        pt.within(out.size),
        0 <= c < out.channels(),
    ensures
        verdict(&Crop(region), seq![src], out) is None,
        spec_eval(&Crop(region), seq![src], out).meta.size == region.size,
        spec_eval(&Crop(region), seq![src], out).level(pt, c) == src.level(
            Point { x: (pt.x + region.origin.x) as usize, y: (pt.y + region.origin.y) as usize },
            c,
        ),
{
    let f = Crop(region);
    lemma_verdict(&f, seq![src], out);
    let from = f.source(pt);
    ImageView::lemma_raster_level(
        out,
        |q: Point, k: int| out.kind.quantize(f.level_at(q, k, seq![src], out)),
        pt,
        c,
    );
    src.meta.lemma_join(from, c);
}

} // verus!
