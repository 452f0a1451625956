//! The filter interface: a filter computes one output pixel from the input
//! images, and a whole image by doing so for every pixel.

use crate::error::Error;
use crate::geometry::Point;
use crate::image::{Image, ImageView, Meta};
use vstd::prelude::*;

verus! {

/// The views of the images handed to a filter.
pub open spec fn views(inputs: Seq<&Image>) -> Seq<ImageView> {
    Seq::new(inputs.len(), |i: int| inputs[i]@)
}

/// Every image handed to a filter is well formed.
pub open spec fn all_wf(inputs: Seq<&Image>) -> bool {
    forall|i: int| 0 <= i < inputs.len() ==> (#[trigger] inputs[i]).wf()
}

/// The result that stands for a refusal, or for none.
pub open spec fn outcome(refusal: Option<Error>) -> Result<(), Error> {
    match refusal {
        None => Ok(()),
        Some(e) => Err(e),
    }
}

/// The first refusal met when the rows from `y` up to `end` are walked in
/// row-major order, starting in row `y` at column `x`.
pub open spec fn scan_from<F: FilterModel>(
    f: &F,
    inputs: Seq<ImageView>,
    out: Meta,
    x: int,
    y: int,
    end: int,
) -> Option<Error>
    decreases end - y, out.size.width - x,
{
    if y >= end || x < 0 {
        None
    } else if x >= out.size.width {
        scan_from(f, inputs, out, 0, y + 1, end)
    } else {
        match f.refusal_at(Point { x: x as usize, y: y as usize }, inputs, out) {
            Some(e) => Some(e),
            None => scan_from(f, inputs, out, x + 1, y, end),
        }
    }
}

/// The first refusal among the pixels of rows `y0` up to `y1`.
pub open spec fn verdict_rows<F: FilterModel>(
    f: &F,
    inputs: Seq<ImageView>,
    out: Meta,
    y0: int,
    y1: int,
) -> Option<Error> {
    scan_from(f, inputs, out, 0, y0, y1)
}

/// The first refusal among all pixels of an output of shape `out`, or `None`
/// where the filter computes every one of them.
pub open spec fn verdict<F: FilterModel>(f: &F, inputs: Seq<ImageView>, out: Meta) -> Option<Error> {
    verdict_rows(f, inputs, out, 0, out.size.height as int)
}

/// The image that a filter produces in a destination of shape `out`: every
/// channel holds the level the filter computes, as the destination's
/// sample type stores it.
pub open spec fn spec_eval<F: FilterModel>(f: &F, inputs: Seq<ImageView>, out: Meta) -> ImageView {
    ImageView::raster(
        out,
        |pt: Point, c: int| out.kind.quantize(f.level_at(pt, c, inputs, out)),
    )
}

/// `before` with the samples from position `lo` up to `hi` taken from
/// `target`.
pub open spec fn splice(before: Seq<int>, target: Seq<int>, lo: int, hi: int) -> Seq<int> {
    Seq::new(
        before.len(),
        |i: int|
            if lo <= i < hi {
                target[i]
            } else {
                before[i]
            },
    )
}

/// The position of the first sample of row `y`.
pub open spec fn row_start(out: Meta, y: int) -> int {
    y * out.size.width * out.channels()
}

/// What a filter computes, as a function of the output position and of the
/// input images.
pub trait FilterModel: Sized {
    /// Why the filter cannot compute the output pixel at `pt`, or `None`
    /// where it can.
    spec fn refusal_at(&self, pt: Point, inputs: Seq<ImageView>, out: Meta) -> Option<Error>;

    /// The level of channel `c` of the output pixel at `pt`, before it is
    /// clamped and stored.
    spec fn level_at(&self, pt: Point, c: int, inputs: Seq<ImageView>, out: Meta) -> int;
}

/// A transformation from input images to a destination image. The
/// pointwise [`Filter::compute_at`] is required; the bulk operations are
/// derived from it and may be replaced by faster ones that do the same.
pub trait Filter: FilterModel {
    /// Computes the output pixel at `pt` into `px`, one level for each
    /// channel of the output. On a refusal `px` holds nothing of use.
    fn compute_at(&self, pt: Point, inputs: &[&Image], out: Meta, px: &mut Vec<i64>) -> (r:
        Result<(), Error>)
        requires
            all_wf(inputs@),
            out.addressable(),
            pt.within(out.size),
            old(px)@.len() == out.channels(),
        ensures
            final(px)@.len() == old(px)@.len(),
            r == outcome(self.refusal_at(pt, views(inputs@), out)),
            r is Ok ==> forall|c: int|
                0 <= c < out.channels() ==> final(px)@[c] == self.level_at(
                    pt,
                    c,
                    views(inputs@),
                    out,
                ),
    ;

    /// Computes the rows `y0` up to `y1` of `dest`, pixel by pixel in
    /// row-major order, and stops at the first refusal. The other rows are
    /// left as they are.
    fn eval_rows(&self, inputs: &[&Image], dest: &mut Image, y0: usize, y1: usize) -> (r: Result<
        (),
        Error,
    >)
        requires
            all_wf(inputs@),
            old(dest).wf(),
            y0 <= y1 <= old(dest).meta.size.height,
        ensures
            final(dest).wf(),
            final(dest).meta == old(dest).meta,
            r == outcome(verdict_rows(self, views(inputs@), old(dest).meta, y0 as int, y1 as int)),
            r is Ok ==> final(dest)@.levels == splice(
                old(dest)@.levels,
                spec_eval(self, views(inputs@), old(dest).meta).levels,
                row_start(old(dest).meta, y0 as int),
                row_start(old(dest).meta, y1 as int),
            ),
            forall|i: int|
                0 <= i < old(dest)@.levels.len() && (i < row_start(old(dest).meta, y0 as int)
                    || row_start(old(dest).meta, y1 as int) <= i) ==> final(dest)@.levels[i] == old(
                    dest,
                )@.levels[i],
    {
        let meta = dest.meta;
        let w = meta.size.width;
        let ch = meta.num_channels();
        let ghost vs = views(inputs@);
        let ghost before = dest@.levels;
        let ghost target = spec_eval(self, vs, meta).levels;
        let ghost lo = row_start(meta, y0 as int);
        let mut px: Vec<i64> = vec![0i64; ch];
        let mut y = y0;
        proof {
            lemma_row_start(meta, y0 as int);
            lemma_row_start(meta, y1 as int);
            lemma_row_order(meta, y0 as int, y1 as int);
            assert(dest@.levels =~= splice(before, target, lo, lo));
        }
        while y < y1
            invariant
                all_wf(inputs@),
                vs == views(inputs@),
                dest.wf(),
                dest.meta == meta,
                meta == old(dest).meta,
                before == old(dest)@.levels,
                meta.addressable(),
                w == meta.size.width,
                ch == meta.channels(),
                px@.len() == ch,
                y0 <= y <= y1 <= meta.size.height,
                before.len() == meta.spec_len(),
                target == spec_eval(self, vs, meta).levels,
                lo == row_start(meta, y0 as int),
                verdict_rows(self, vs, meta, y0 as int, y1 as int) == scan_from(
                    self,
                    vs,
                    meta,
                    0,
                    y as int,
                    y1 as int,
                ),
                dest@.levels == splice(before, target, lo, row_start(meta, y as int)),
            decreases y1 - y,
        {
            let mut x: usize = 0;
            proof {
                lemma_row_start(meta, y as int);
                lemma_row_order(meta, y0 as int, y as int);
                lemma_row_order(meta, y as int + 1, y1 as int);
                lemma_row_start(meta, y as int + 1);
            }
            while x < w
                invariant
                    all_wf(inputs@),
                    vs == views(inputs@),
                    dest.wf(),
                    dest.meta == meta,
                    meta == old(dest).meta,
                    before == old(dest)@.levels,
                    meta.addressable(),
                    w == meta.size.width,
                    ch == meta.channels(),
                    px@.len() == ch,
                    y0 <= y < y1 <= meta.size.height,
                    row_start(meta, y as int + 1) <= row_start(meta, y1 as int),
                    x <= w,
                    before.len() == meta.spec_len(),
                    target == spec_eval(self, vs, meta).levels,
                    lo == row_start(meta, y0 as int),
                    lo <= row_start(meta, y as int),
                    row_start(meta, y as int) + w * ch == row_start(meta, y as int + 1),
                    row_start(meta, y as int + 1) <= meta.spec_len(),
                    verdict_rows(self, vs, meta, y0 as int, y1 as int) == scan_from(
                        self,
                        vs,
                        meta,
                        x as int,
                        y as int,
                        y1 as int,
                    ),
                    dest@.levels == splice(
                        before,
                        target,
                        lo,
                        row_start(meta, y as int) + x * ch,
                    ),
                decreases w - x,
            {
                let pt = Point { x, y };
                let ghost base = row_start(meta, y as int) + x * ch;
                proof {
                    lemma_pixel_start(meta, pt);
                    lemma_pixel_order(meta, x as int, w as int);
                }
                match self.compute_at(pt, inputs, meta, &mut px) {
                    Err(e) => {
                        proof {
                            lemma_outside_unchanged(
                                before,
                                target,
                                lo,
                                base,
                                row_start(meta, y1 as int),
                            );
                        }
                        return Err(e);
                    },
                    Ok(()) => {},
                }
                let mut c: usize = 0;
                while c < ch
                    invariant
                        dest.wf(),
                        dest.meta == meta,
                        meta == old(dest).meta,
                        pt.within(meta.size),
                        ch == meta.channels(),
                        px@.len() == ch,
                        c <= ch,
                        before.len() == meta.spec_len(),
                        target == spec_eval(self, vs, meta).levels,
                        base == meta.spec_index(pt),
                        lo <= base,
                        base + ch <= meta.spec_len(),
                        forall|k: int|
                            0 <= k < ch ==> px@[k] == self.level_at(pt, k, vs, meta),
                        dest@.levels == splice(before, target, lo, base + c),
                    decreases ch - c,
                {
                    let level = px[c];
                    dest.set_f(pt, c, level);
                    proof {
                        meta.lemma_join(pt, c as int);
                        assert(dest@.levels =~= splice(before, target, lo, base + c + 1));
                    }
                    c += 1;
                }
                proof {
                    assert(base + ch == row_start(meta, y as int) + (x + 1) * ch)
                        by (nonlinear_arith)
                        requires
                            base == row_start(meta, y as int) + x * ch,
                    ;
                }
                x += 1;
            }
            y += 1;
        }
        proof {
            lemma_outside_unchanged(
                before,
                target,
                lo,
                row_start(meta, y1 as int),
                row_start(meta, y1 as int),
            );
        }
        Ok(())
    }

    /// Computes every pixel of `dest` from the inputs. Succeeds exactly
    /// where the filter refuses no pixel of `dest`; otherwise the first
    /// refusal in row-major order is returned.
    fn eval(&self, inputs: &[&Image], dest: &mut Image) -> (r: Result<(), Error>)
        requires
            all_wf(inputs@),
            old(dest).wf(),
        ensures
            final(dest).wf(),
            final(dest).meta == old(dest).meta,
            r == outcome(verdict(self, views(inputs@), old(dest).meta)),
            r is Ok ==> final(dest)@ == spec_eval(self, views(inputs@), old(dest).meta),
    {
        let h = dest.meta.size.height;
        let ghost meta = dest.meta;
        proof {
            lemma_row_start(meta, 0);
            lemma_row_start(meta, h as int);
        }
        let r = self.eval_rows(inputs, dest, 0, h);
        proof {
            if r is Ok {
                assert(dest@.levels =~= spec_eval(self, views(inputs@), meta).levels);
            }
        }
        r
    }
}

/// Whether the walk of [`scan_from`] that starts at `(x, y)` comes to `pt`.
pub open spec fn walked(pt: Point, out: Meta, x: int, y: int, end: int) -> bool {
    pt.within(out.size) && (pt.y == y && pt.x >= x || y < pt.y < end)
}

/// A walk meets no refusal exactly where the filter refuses none of the
/// pixels it comes to.
pub proof fn lemma_scan_none<F: FilterModel>(
    f: &F,
    inputs: Seq<ImageView>,
    out: Meta,
    x: int,
    y: int,
    end: int,
)
    requires
        0 <= x <= out.size.width,
        0 <= y,
        end <= out.size.height,
    ensures
        scan_from(f, inputs, out, x, y, end) is None <==> forall|pt: Point|
            walked(pt, out, x, y, end) && pt.y < end ==> (#[trigger] f.refusal_at(pt, inputs, out))
                is None,
    decreases end - y, out.size.width - x,
{
    if y >= end {
    } else if x >= out.size.width {
        lemma_scan_none(f, inputs, out, 0, y + 1, end);
        assert forall|pt: Point| walked(pt, out, x, y, end) && pt.y < end implies walked(
            pt,
            out,
            0,
            y + 1,
            end,
        ) by {}
    } else {
        let here = Point { x: x as usize, y: y as usize };
        lemma_scan_none(f, inputs, out, x + 1, y, end);
        assert(walked(here, out, x, y, end));
        assert forall|pt: Point| walked(pt, out, x, y, end) && pt.y < end implies pt == here
            || walked(pt, out, x + 1, y, end) by {}
    }
}

/// The verdict over some rows is `None` exactly where the filter computes
/// every pixel of those rows.
pub proof fn lemma_verdict_rows<F: FilterModel>(
    f: &F,
    inputs: Seq<ImageView>,
    out: Meta,
    y0: int,
    y1: int,
)
    requires
        0 <= y0,
        y1 <= out.size.height,
    ensures
        verdict_rows(f, inputs, out, y0, y1) is None <==> forall|pt: Point|
            pt.within(out.size) && y0 <= pt.y < y1 ==> (#[trigger] f.refusal_at(pt, inputs, out))
                is None,
{
    lemma_scan_none(f, inputs, out, 0, y0, y1);
    assert forall|pt: Point| pt.within(out.size) && y0 <= pt.y < y1 implies walked(
        pt,
        out,
        0,
        y0,
        y1,
    ) && pt.y < y1 by {}
}

/// A filter computes a whole image exactly where it refuses no pixel of it.
pub proof fn lemma_verdict<F: FilterModel>(f: &F, inputs: Seq<ImageView>, out: Meta)
    ensures
        verdict(f, inputs, out) is None <==> forall|pt: Point|
            pt.within(out.size) ==> (#[trigger] f.refusal_at(pt, inputs, out)) is None,
{
    lemma_verdict_rows(f, inputs, out, 0, out.size.height as int);
}

/// Walking some rows and then the rows after them meets the same first
/// refusal as walking them all at once.
pub proof fn lemma_scan_split<F: FilterModel>(
    f: &F,
    inputs: Seq<ImageView>,
    out: Meta,
    x: int,
    y: int,
    mid: int,
    end: int,
)
    requires
        0 <= x,
        y <= mid <= end,
        y < mid || x == 0,
    ensures
        scan_from(f, inputs, out, x, y, end) == match scan_from(f, inputs, out, x, y, mid) {
            Some(e) => Some(e),
            None => scan_from(f, inputs, out, 0, mid, end),
        },
    decreases mid - y, out.size.width - x,
{
    if y >= mid {
    } else if x >= out.size.width {
        lemma_scan_split(f, inputs, out, 0, y + 1, mid, end);
    } else {
        lemma_scan_split(f, inputs, out, x + 1, y, mid, end);
    }
}

/// The verdict over rows `y0` up to `y2` is that over the rows up to `y1`
/// or, where those are all computed, that over the rows from `y1` on.
pub proof fn lemma_verdict_split<F: FilterModel>(
    f: &F,
    inputs: Seq<ImageView>,
    out: Meta,
    y0: int,
    y1: int,
    y2: int,
)
    requires
        y0 <= y1 <= y2,
    ensures
        verdict_rows(f, inputs, out, y0, y2) == match verdict_rows(f, inputs, out, y0, y1) {
            Some(e) => Some(e),
            None => verdict_rows(f, inputs, out, y1, y2),
        },
{
    lemma_scan_split(f, inputs, out, 0, y0, y1, y2);
}

/// Two filters that refuse the same pixels for the same reasons meet the
/// same first refusal.
pub proof fn lemma_scan_same<F: FilterModel, G: FilterModel>(
    f: &F,
    f_inputs: Seq<ImageView>,
    g: &G,
    g_inputs: Seq<ImageView>,
    out: Meta,
    x: int,
    y: int,
    end: int,
)
    requires
        0 <= x,
        0 <= y,
        forall|pt: Point|
            pt.within(out.size) ==> #[trigger] f.refusal_at(pt, f_inputs, out) == g.refusal_at(
                pt,
                g_inputs,
                out,
            ),
    ensures
        end <= out.size.height ==> scan_from(f, f_inputs, out, x, y, end) == scan_from(
            g,
            g_inputs,
            out,
            x,
            y,
            end,
        ),
    decreases end - y, out.size.width - x,
{
    if y >= end || end > out.size.height {
    } else if x >= out.size.width {
        lemma_scan_same(f, f_inputs, g, g_inputs, out, 0, y + 1, end);
    } else {
        let here = Point { x: x as usize, y: y as usize };
        assert(here.within(out.size));
        lemma_scan_same(f, f_inputs, g, g_inputs, out, x + 1, y, end);
    }
}

/// Rows start inside the buffer, one row after the other.
pub proof fn lemma_row_start(out: Meta, y: int)
    requires
        0 <= y <= out.size.height,
    ensures
        0 <= row_start(out, y) <= out.spec_len(),
        row_start(out, 0) == 0,
        row_start(out, out.size.height as int) == out.spec_len(),
        row_start(out, y) + out.size.width * out.channels() == row_start(out, y + 1),
{
    let w = out.size.width as int;
    let h = out.size.height as int;
    let ch = out.channels() as int;
    assert(0 <= y * w * ch <= w * h * ch && y * w * ch + w * ch == (y + 1) * w * ch && 0 * w * ch
        == 0 && h * w * ch == w * h * ch) by (nonlinear_arith)
        requires
            0 <= y <= h,
            0 <= w,
            0 < ch,
    ;
}

/// A later row starts at a later position.
pub proof fn lemma_row_order(out: Meta, y0: int, y1: int)
    requires
        0 <= y0 <= y1,
    ensures
        row_start(out, y0) <= row_start(out, y1),
{
    let w = out.size.width as int;
    let ch = out.channels() as int;
    assert(y0 * w * ch <= y1 * w * ch) by (nonlinear_arith)
        requires
            0 <= y0 <= y1,
            0 <= w,
            0 < ch,
    ;
}

/// The samples of a pixel start where its row starts, plus the pixels to
/// its left.
pub proof fn lemma_pixel_start(out: Meta, pt: Point)
    requires
        pt.within(out.size),
    ensures
        out.spec_index(pt) == row_start(out, pt.y as int) + pt.x * out.channels(),
        out.spec_index(pt) + out.channels() <= out.spec_len(),
{
    let w = out.size.width as int;
    let h = out.size.height as int;
    let ch = out.channels() as int;
    let x = pt.x as int;
    let y = pt.y as int;
    crate::image::lemma_index_bounds(w, h, ch, x, y, 0);
    assert((y * w + x) * ch == y * w * ch + x * ch) by (nonlinear_arith);
}

proof fn lemma_pixel_order(out: Meta, x: int, w: int)
    requires
        0 <= x < w,
    ensures
        0 <= x * out.channels(),
        x * out.channels() + out.channels() <= w * out.channels(),
{
    let ch = out.channels() as int;
    assert(0 <= x * ch && x * ch + ch <= w * ch) by (nonlinear_arith)
        requires
            0 <= x < w,
            0 < ch,
    ;
}

proof fn lemma_outside_unchanged(before: Seq<int>, target: Seq<int>, lo: int, mid: int, hi: int)
    requires
        lo <= mid <= hi,
    ensures
        forall|i: int|
            0 <= i < before.len() && (i < lo || hi <= i) ==> splice(before, target, lo, mid)[i]
                == before[i],
{
}

} // verus!
