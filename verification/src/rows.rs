//! Evaluation in partitions: the rows of the destination are split into
//! bands, and each band is computed by one unit of work that writes into
//! its own rows only.
//!
//! The units do not depend on one another, so an executor may run them in
//! any order or at once. [`AsyncFilter`] hands them out one at a time, in
//! row order.

use crate::error::Error;
use crate::filter::{
    all_wf, lemma_row_order, lemma_row_start, lemma_verdict_split, outcome, row_start, spec_eval,
    splice, verdict, verdict_rows, views, Filter,
};
use crate::image::Image;
use vstd::prelude::*;

verus! {

/// How the rows of the destination are split into units of work.
#[derive(Clone, Copy, Debug, PartialEq, Eq, Structural)]
pub enum AsyncMode {
    /// One unit for each row.
    Row,
    /// One unit for each band of so many rows; a band of no rows counts as
    /// a band of one.
    Band(usize),
}

/// Whether the evaluation has more units to run.
#[derive(Clone, Copy, Debug)]
pub enum Progress {
    Pending,
    Ready(Result<(), Error>),
}

/// An evaluation in progress: the rows before `next` have been handed out,
/// and `failure` is the first refusal met in them.
#[derive(Clone, Copy, Debug)]
pub struct AsyncFilter {
    pub mode: AsyncMode,
    pub next: usize,
    pub failure: Option<Error>,
}

impl AsyncMode {
    /// The number of rows of one unit.
    pub open spec fn spec_band(self) -> int {
        match self {
            AsyncMode::Row => 1,
            AsyncMode::Band(n) => if n == 0 {
                1
            } else {
                n as int
            },
        }
    }

    /// The number of rows of one unit.
    pub fn band(&self) -> (n: usize)
        ensures
            n == self.spec_band(),
            n >= 1,
    {
        match self {
            AsyncMode::Row => 1,
            AsyncMode::Band(n) => if *n == 0 {
                1
            } else {
                *n
            },
        }
    }
}

/// `first`, or `second` where `first` is `None`.
pub open spec fn first_of(first: Option<Error>, second: Option<Error>) -> Option<Error> {
    match first {
        Some(e) => Some(e),
        None => second,
    }
}

impl AsyncFilter {
    /// An evaluation of which no unit has run.
    pub fn new(mode: AsyncMode) -> (s: AsyncFilter)
        ensures
            s == (AsyncFilter { mode, next: 0, failure: None }),
    {
        AsyncFilter { mode, next: 0, failure: None }
    }

    /// The row after the last row of the next unit, for a destination of
    /// `height` rows.
    pub open spec fn band_end(&self, height: int) -> int {
        if self.next + self.mode.spec_band() >= height {
            height
        } else {
            self.next + self.mode.spec_band()
        }
    }

    /// Runs the next unit: the rows from `next` up to the end of the band
    /// are computed and nothing else is written. A refusal does not stop
    /// the evaluation; the first one is kept and reported with the last
    /// unit.
    pub fn step<F: Filter>(&mut self, filter: &F, inputs: &[&Image], dest: &mut Image) -> (p:
        Progress)
        requires
            all_wf(inputs@),
            old(dest).wf(),
            old(self).next <= old(dest).meta.size.height,
        ensures
            final(dest).wf(),
            final(dest).meta == old(dest).meta,
            final(self).mode == old(self).mode,
            final(self).next == old(self).band_end(old(dest).meta.size.height as int),
            final(self).failure == first_of(
                old(self).failure,
                verdict_rows(
                    filter,
                    views(inputs@),
                    old(dest).meta,
                    old(self).next as int,
                    final(self).next as int,
                ),
            ),
            verdict_rows(
                filter,
                views(inputs@),
                old(dest).meta,
                old(self).next as int,
                final(self).next as int,
            ) is None ==> final(dest)@.levels == splice(
                old(dest)@.levels,
                spec_eval(filter, views(inputs@), old(dest).meta).levels,
                row_start(old(dest).meta, old(self).next as int),
                row_start(old(dest).meta, final(self).next as int),
            ),
            forall|i: int|
                0 <= i < old(dest)@.levels.len() && (i < row_start(
                    old(dest).meta,
                    old(self).next as int,
                ) || row_start(old(dest).meta, final(self).next as int) <= i)
                    ==> final(dest)@.levels[i] == old(dest)@.levels[i],
            p == if final(self).next < old(dest).meta.size.height {
                Progress::Pending
            } else {
                Progress::Ready(outcome(final(self).failure))
            },
    {
        let height = dest.meta.size.height;
        let band = self.mode.band();
        let y0 = self.next;
        let y1 = if band >= height - y0 {
            height
        } else {
            y0 + band
        };
        let r = filter.eval_rows(inputs, dest, y0, y1);
        self.next = y1;
        if self.failure.is_none() {
            match r {
                Ok(()) => {},
                Err(e) => {
                    self.failure = Some(e);
                },
            }
        }
        if y1 < height {
            Progress::Pending
        } else {
            match self.failure {
                None => Progress::Ready(Ok(())),
                Some(e) => Progress::Ready(Err(e)),
            }
        }
    }
}

/// Computes every pixel of `dest` unit by unit, as `mode` splits the rows.
/// The destination and the result are those of [`Filter::eval`], except
/// that after a refusal the rows of the other units are still computed.
pub fn apply_rows<F: Filter>(mode: AsyncMode, filter: &F, inputs: &[&Image], dest: &mut Image) -> (r:
    Result<(), Error>)
    requires
        all_wf(inputs@),
        old(dest).wf(),
    ensures
        final(dest).wf(),
        final(dest).meta == old(dest).meta,
        r == outcome(verdict(filter, views(inputs@), old(dest).meta)),
        r is Ok ==> final(dest)@ == spec_eval(filter, views(inputs@), old(dest).meta),
{
    let mut state = AsyncFilter::new(mode);
    let ghost meta = dest.meta;
    let ghost vs = views(inputs@);
    let ghost before = dest@.levels;
    let ghost target = spec_eval(filter, vs, meta).levels;
    let height = dest.meta.size.height;
    proof {
        lemma_row_start(meta, 0);
        assert(dest@.levels =~= splice(before, target, 0, 0));
    }
    loop
        invariant
            all_wf(inputs@),
            vs == views(inputs@),
            dest.wf(),
            dest.meta == meta,
            meta == old(dest).meta,
            height == meta.size.height,
            before.len() == meta.spec_len(),
            target == spec_eval(filter, vs, meta).levels,
            state.mode == mode,
            state.next <= height,
            state.failure == verdict_rows(filter, vs, meta, 0, state.next as int),
            state.failure is None ==> dest@.levels == splice(
                before,
                target,
                0,
                row_start(meta, state.next as int),
            ),
        decreases height - state.next,
    {
        let ghost y0 = state.next as int;
        let ghost mid = dest@.levels;
        let p = state.step(filter, inputs, dest);
        proof {
            let y1 = state.next as int;
            lemma_verdict_split(filter, vs, meta, 0, y0, y1);
            lemma_row_start(meta, y0);
            lemma_row_start(meta, y1);
            lemma_row_order(meta, y0, y1);
            if state.failure is None {
                assert(dest@.levels =~= splice(before, target, 0, row_start(meta, y1)));
            }
        }
        match p {
            Progress::Pending => {},
            Progress::Ready(r) => {
                proof {
                    lemma_row_start(meta, height as int);
                    if r is Ok {
                        assert(dest@.levels =~= target);
                    }
                }
                return r;
            },
        }
    }
}

/// Units may run in any order: writing the samples of two ranges that do
/// not overlap gives the same buffer whichever range is written first.
pub proof fn lemma_units_commute(
    before: Seq<int>,
    target: Seq<int>,
    a0: int,
    a1: int,
    b0: int,
    b1: int,
)
    requires
        a1 <= b0 || b1 <= a0,
    ensures
        splice(splice(before, target, a0, a1), target, b0, b1) == splice(
            splice(before, target, b0, b1),
            target,
            a0,
            a1,
        ),
{
    assert(splice(splice(before, target, a0, a1), target, b0, b1) =~= splice(
        splice(before, target, b0, b1),
        target,
        a0,
        a1,
    ));
}

/// Units that follow one another add up: writing the samples from `lo` up
/// to `mid` and then those from `mid` up to `hi` is writing those from `lo`
/// up to `hi`.
pub proof fn lemma_units_join(before: Seq<int>, target: Seq<int>, lo: int, mid: int, hi: int)
    requires
        lo <= mid <= hi,
    ensures
        splice(splice(before, target, lo, mid), target, mid, hi) == splice(
            before,
            target,
            lo,
            hi,
        ),
{
    assert(splice(splice(before, target, lo, mid), target, mid, hi) =~= splice(
        before,
        target,
        lo,
        hi,
    ));
}

} // verus!
