//! The image: a rectangular, channel-packed pixel buffer.
//!
//! Pixels are stored row by row; the channels of the pixel at `(x, y)` start
//! at sample `(y * width + x) * channels`.

use crate::buffer::Buffer;
use crate::error::Error;
use crate::geometry::{Point, Size};
use crate::sample::{ColorModel, SampleType, LEVEL_MAX, lemma_quantize_idempotent};
use vstd::prelude::*;

verus! {

/// The shape of an image: its extent, its sample type and its color model.
#[derive(Clone, Copy, Debug, PartialEq, Eq, Structural)]
pub struct Meta {
    pub size: Size,
    pub kind: SampleType,
    pub color: ColorModel,
}

/// What an image is to a contract: its shape and the level of every stored
/// channel, row by row.
pub struct ImageView {
    pub meta: Meta,
    pub levels: Seq<int>,
}

/// A pixel buffer together with its shape.
#[derive(Debug, PartialEq, Eq)]
pub struct Image {
    pub meta: Meta,
    pub data: Buffer,
}

/// The samples of a pixel inside the image lie inside the buffer.
pub proof fn lemma_index_bounds(w: int, h: int, ch: int, x: int, y: int, c: int)
    by (nonlinear_arith)
    requires
        0 <= x < w,
        0 <= y < h,
        0 <= c < ch,
    ensures
        0 <= y * w,
        y * w + x < w * h,
        0 <= (y * w + x) * ch,
        (y * w + x) * ch + c < w * h * ch,
        (y * w + x) * ch + ch <= w * h * ch,
        w * h <= w * h * ch,
{
    assert(y * w <= (h - 1) * w);
    assert((y * w + x) + 1 <= w * h);
    assert(((y * w + x) + 1) * ch <= (w * h) * ch);
}

/// Every sample position is the position of one channel of one pixel.
pub proof fn lemma_index_split(w: int, h: int, ch: int, i: int)
    requires
        0 < ch,
        0 <= i < w * h * ch,
        0 <= w,
        0 <= h,
    ensures
        0 < w,
        0 <= (i / ch) % w < w,
        0 <= (i / ch) / w < h,
        0 <= i % ch < ch,
        (((i / ch) / w) * w + (i / ch) % w) * ch + i % ch == i,
{
    assert(0 < w) by (nonlinear_arith)
        requires
            0 <= i < w * h * ch,
            0 <= w,
    ;
    let p = i / ch;
    vstd::arithmetic::div_mod::lemma_fundamental_div_mod(i, ch);
    assert(0 <= p) by {
        vstd::arithmetic::div_mod::lemma_div_pos_is_pos(i, ch);
    }
    assert(p < w * h) by (nonlinear_arith)
        requires
            i == ch * p + i % ch,
            0 <= i % ch < ch,
            i < w * h * ch,
            0 < ch,
    ;
    vstd::arithmetic::div_mod::lemma_fundamental_div_mod(p, w);
    assert(0 <= p / w) by {
        vstd::arithmetic::div_mod::lemma_div_pos_is_pos(p, w);
    }
    assert(p / w < h) by (nonlinear_arith)
        requires
            p == w * (p / w) + p % w,
            0 <= p % w < w,
            p < w * h,
            0 < w,
    ;
    assert(((p / w) * w + p % w) * ch + i % ch == i) by (nonlinear_arith)
        requires
            p == w * (p / w) + p % w,
            i == ch * p + i % ch,
    ;
}

/// The channel position `(x, y, c)` is recovered from its sample position.
pub proof fn lemma_index_join(w: int, h: int, ch: int, x: int, y: int, c: int)
    requires
        0 <= x < w,
        0 <= y < h,
        0 <= c < ch,
    ensures
        (((y * w + x) * ch + c) / ch) % w == x,
        (((y * w + x) * ch + c) / ch) / w == y,
        ((y * w + x) * ch + c) % ch == c,
{
    let p = y * w + x;
    lemma_index_bounds(w, h, ch, x, y, c);
    vstd::arithmetic::div_mod::lemma_fundamental_div_mod_converse(p * ch + c, ch, p, c);
    vstd::arithmetic::div_mod::lemma_fundamental_div_mod_converse(p, w, y, x);
}

impl Meta {
    /// The number of channels of a pixel.
    pub open spec fn channels(self) -> nat {
        self.color.spec_channels()
    }

    /// The number of samples of an image of this shape.
    pub open spec fn spec_len(self) -> nat {
        (self.size.width * self.size.height * self.channels()) as nat
    }

    /// Whether a buffer of this shape can be addressed.
    pub open spec fn addressable(self) -> bool {
        self.spec_len() <= usize::MAX
    }

    /// The position of the first channel of the pixel at `pt`.
    pub open spec fn spec_index(self, pt: Point) -> int {
        (pt.y * self.size.width + pt.x) * self.channels()
    }

    /// The pixel that the sample at position `i` belongs to.
    pub open spec fn point_of(self, i: int) -> Point {
        Point {
            x: ((i / self.channels() as int) % self.size.width as int) as usize,
            y: ((i / self.channels() as int) / self.size.width as int) as usize,
        }
    }

    /// The channel that the sample at position `i` holds.
    pub open spec fn channel_of(self, i: int) -> int {
        i % self.channels() as int
    }

    pub fn new(size: Size, kind: SampleType, color: ColorModel) -> (m: Meta)
        ensures
            m == (Meta { size, kind, color }),
    {
        Meta { size, kind, color }
    }

    pub fn width(&self) -> (w: usize)
        ensures
            w == self.size.width,
    {
        self.size.width
    }

    pub fn height(&self) -> (h: usize)
        ensures
            h == self.size.height,
    {
        self.size.height
    }

    pub fn size(&self) -> (s: Size)
        ensures
            s == self.size,
    {
        self.size
    }

    pub fn num_channels(&self) -> (n: usize)
        ensures
            n == self.channels(),
            1 <= n <= 4,
    {
        self.color.channels()
    }

    /// The number of samples, or `None` where it does not fit the address
    /// space.
    pub fn checked_len(&self) -> (r: Option<usize>)
        ensures
            r is Some <==> self.addressable(),
            r matches Some(n) ==> n == self.spec_len(),
    {
        let ch = self.color.channels();
        let w = self.size.width;
        let h = self.size.height;
        if w == 0 || h == 0 {
            assert(w * h * ch == 0) by (nonlinear_arith)
                requires
                    w == 0 || h == 0,
            ;
            return Some(0);
        }
        match w.checked_mul(h) {
            None => {
                assert(w * h * ch >= w * h) by (nonlinear_arith)
                    requires
                        ch >= 1,
                        w >= 0,
                        h >= 0,
                ;
                None
            },
            Some(area) => area.checked_mul(ch),
        }
    }

    /// The number of samples.
    pub fn len(&self) -> (n: usize)
        requires
            self.addressable(),
        ensures
            n == self.spec_len(),
    {
        match self.checked_len() {
            Some(n) => n,
            None => 0,
        }
    }

    /// The position of the first channel of the pixel at `pt`.
    pub fn index(&self, pt: Point) -> (i: usize)
        requires
            self.addressable(),
            pt.within(self.size),
        ensures
            i == self.spec_index(pt),
            i + self.channels() <= self.spec_len(),
    {
        let ch = self.color.channels();
        proof {
            lemma_index_bounds(
                self.size.width as int,
                self.size.height as int,
                ch as int,
                pt.x as int,
                pt.y as int,
                0,
            );
        }
        (pt.y * self.size.width + pt.x) * ch
    }

    /// [`Meta::point_of`] and [`Meta::channel_of`] name one channel of one
    /// pixel, the one stored at `i`.
    pub proof fn lemma_split(self, i: int)
        requires
            0 <= i < self.spec_len(),
        ensures
            self.point_of(i).within(self.size),
            0 <= self.channel_of(i) < self.channels(),
            self.spec_index(self.point_of(i)) + self.channel_of(i) == i,
    {
        lemma_index_split(
            self.size.width as int,
            self.size.height as int,
            self.channels() as int,
            i,
        );
    }

    /// The sample of channel `c` of the pixel at `pt` lies inside the buffer,
    /// and its position names that channel of that pixel.
    pub proof fn lemma_join(self, pt: Point, c: int)
        requires
            pt.within(self.size),
            0 <= c < self.channels(),
        ensures
            0 <= self.spec_index(pt) + c < self.spec_len(),
            self.point_of(self.spec_index(pt) + c) == pt,
            self.channel_of(self.spec_index(pt) + c) == c,
    {
        lemma_index_bounds(
            self.size.width as int,
            self.size.height as int,
            self.channels() as int,
            pt.x as int,
            pt.y as int,
            c,
        );
        lemma_index_join(
            self.size.width as int,
            self.size.height as int,
            self.channels() as int,
            pt.x as int,
            pt.y as int,
            c,
        );
    }
}

impl ImageView {
    /// The level of channel `c` of the pixel at `pt`.
    pub open spec fn level(self, pt: Point, c: int) -> int {
        self.levels[self.meta.spec_index(pt) + c]
    }

    /// The view has one level for every channel of every pixel, and each
    /// level is one that the sample type can store.
    pub open spec fn valid(self) -> bool {
        &&& self.meta.addressable()
        &&& self.levels.len() == self.meta.spec_len()
        &&& forall|i: int|
            0 <= i < self.levels.len() ==> 0 <= #[trigger] self.levels[i] <= LEVEL_MAX
                && self.meta.kind.quantize(self.levels[i]) == self.levels[i]
    }

    /// An image of shape `meta` whose channel `c` at `pt` has the level
    /// `f(pt, c)`.
    pub open spec fn raster(meta: Meta, f: spec_fn(Point, int) -> int) -> ImageView {
        ImageView {
            meta,
            levels: Seq::new(
                meta.spec_len(),
                |i: int| f(meta.point_of(i), meta.channel_of(i)),
            ),
        }
    }

    /// Two images of one shape with the same level in every channel of every
    /// pixel are the same image.
    pub proof fn lemma_pointwise_equal(self, other: ImageView)
        requires
            self.meta == other.meta,
            self.levels.len() == self.meta.spec_len(),
            other.levels.len() == self.meta.spec_len(),
            forall|pt: Point, c: int|
                pt.within(self.meta.size) && 0 <= c < self.meta.channels() ==> self.level(pt, c)
                    == other.level(pt, c),
        ensures
            self == other,
    {
        assert forall|i: int| 0 <= i < self.levels.len() implies self.levels[i]
            == other.levels[i] by {
            self.meta.lemma_split(i);
            let pt = self.meta.point_of(i);
            let c = self.meta.channel_of(i);
            assert(self.level(pt, c) == other.level(pt, c));
        }
        assert(self.levels =~= other.levels);
    }

    /// The levels of a raster are the values of its function.
    pub proof fn lemma_raster_level(meta: Meta, f: spec_fn(Point, int) -> int, pt: Point, c: int)
        requires
            pt.within(meta.size),
            0 <= c < meta.channels(),
        ensures
            Self::raster(meta, f).level(pt, c) == f(pt, c),
    {
        meta.lemma_join(pt, c);
    }
}

impl View for Image {
    type V = ImageView;

    open spec fn view(&self) -> ImageView {
        ImageView {
            meta: self.meta,
            levels: Seq::new(
                self.data.samples().len(),
                |i: int| self.meta.kind.level_of(self.data.samples()[i]),
            ),
        }
    }
}

impl Image {
    /// The buffer has the sample type and the length that the shape asks
    /// for.
    pub open spec fn wf(&self) -> bool {
        &&& self.meta.addressable()
        &&& self.data.spec_kind() == self.meta.kind
        &&& self.data.samples().len() == self.meta.spec_len()
        &&& forall|i: int|
            0 <= i < self.data.samples().len() ==> 0 <= #[trigger] self.data.samples()[i]
                <= self.meta.kind.max_sample()
    }

    /// The view of a well-formed image is valid.
    pub proof fn lemma_view_valid(&self)
        requires
            self.wf(),
        ensures
            self@.valid(),
    {
        assert forall|i: int| 0 <= i < self@.levels.len() implies 0 <= #[trigger] self@.levels[i]
            <= LEVEL_MAX && self.meta.kind.quantize(self@.levels[i]) == self@.levels[i] by {
            crate::sample::lemma_sample_round_trip(self.meta.kind, self.data.samples()[i]);
        }
    }

    /// A zero-filled image of the given shape. Fails with
    /// [`Error::TooLarge`] exactly where the buffer cannot be addressed.
    pub fn new(kind: SampleType, color: ColorModel, size: Size) -> (r: Result<Image, Error>)
        ensures
            r is Ok <==> (Meta { size, kind, color }).addressable(),
            r matches Err(e) ==> e == Error::TooLarge,
            r matches Ok(img) ==> img.wf() && img@ == ImageView::raster(
                Meta { size, kind, color },
                |pt: Point, c: int| 0int,
            ),
    {
        let meta = Meta { size, kind, color };
        match meta.checked_len() {
            None => Err(Error::TooLarge),
            Some(len) => {
                let img = Image { meta, data: Buffer::zeros(kind, len) };
                assert(img@.levels =~= ImageView::raster(meta, |pt: Point, c: int| 0int).levels);
                Ok(img)
            },
        }
    }

    /// A zero-filled image of the same shape.
    pub fn new_like(&self) -> (img: Image)
        requires
            self.wf(),
        ensures
            img.wf(),
            img@ == ImageView::raster(self.meta, |pt: Point, c: int| 0int),
    {
        let len = self.meta.len();
        let img = Image { meta: self.meta, data: Buffer::zeros(self.meta.kind, len) };
        assert(img@.levels =~= ImageView::raster(self.meta, |pt: Point, c: int| 0int).levels);
        img
    }

    /// A zero-filled image of the same extent with another sample type and
    /// color model.
    pub fn new_like_with_type_and_color(&self, kind: SampleType, color: ColorModel) -> (r: Result<
        Image,
        Error,
    >)
        ensures
            r is Ok <==> (Meta { size: self.meta.size, kind, color }).addressable(),
            r matches Err(e) ==> e == Error::TooLarge,
            r matches Ok(img) ==> img.wf() && img@ == ImageView::raster(
                Meta { size: self.meta.size, kind, color },
                |pt: Point, c: int| 0int,
            ),
    {
        Image::new(kind, color, self.meta.size)
    }

    /// A copy of the image.
    pub fn duplicate(&self) -> (img: Image)
        ensures
            img@ == self@,
            img.wf() == self.wf(),
    {
        Image { meta: self.meta, data: self.data.duplicate() }
    }

    /// Decides [`Image::wf`].
    pub fn is_valid(&self) -> (b: bool)
        ensures
            b == self.wf(),
    {
        match self.meta.checked_len() {
            None => false,
            Some(len) => {
                let ok = self.data.len() == len && self.data.kind() == self.meta.kind;
                proof {
                    if ok {
                        assert forall|i: int| 0 <= i < self.data.samples().len() implies 0
                            <= #[trigger] self.data.samples()[i]
                            <= self.meta.kind.max_sample() by {
                            match self.data {
                                Buffer::U8(v) => {},
                                Buffer::U16(v) => {},
                            }
                        }
                    }
                }
                ok
            },
        }
    }

    pub fn meta(&self) -> (m: Meta)
        ensures
            m == self.meta,
    {
        self.meta
    }

    pub fn size(&self) -> (s: Size)
        ensures
            s == self.meta.size,
    {
        self.meta.size
    }

    pub fn width(&self) -> (w: usize)
        ensures
            w == self.meta.size.width,
    {
        self.meta.size.width
    }

    pub fn height(&self) -> (h: usize)
        ensures
            h == self.meta.size.height,
    {
        self.meta.size.height
    }

    /// Whether `pt` addresses a pixel of the image.
    pub fn in_bounds(&self, pt: Point) -> (b: bool)
        ensures
            b == pt.within(self.meta.size),
    {
        self.meta.size.contains(pt)
    }

    /// The level of channel `c` of the pixel at `pt`.
    pub fn get_f(&self, pt: Point, c: usize) -> (level: i64)
        requires
            self.wf(),
            pt.within(self.meta.size),
            c < self.meta.channels(),
        ensures
            level == self@.level(pt, c as int),
            0 <= level <= LEVEL_MAX,
    {
        let i = self.meta.index(pt) + c;
        self.meta.kind.to_level(self.data.get(i))
    }

    /// The levels of the channels of the pixel at `pt`, in channel order.
    pub fn get_pixel(&self, pt: Point) -> (px: Vec<i64>)
        requires
            self.wf(),
            pt.within(self.meta.size),
        ensures
            px@.len() == self.meta.channels(),
            forall|c: int| 0 <= c < px@.len() ==> px@[c] == self@.level(pt, c),
            forall|c: int| 0 <= c < px@.len() ==> 0 <= #[trigger] px@[c] <= LEVEL_MAX,
    {
        let ch = self.meta.num_channels();
        let base = self.meta.index(pt);
        let mut px: Vec<i64> = Vec::with_capacity(ch);
        let mut c: usize = 0;
        while c < ch
            invariant
                self.wf(),
                ch == self.meta.channels(),
                base == self.meta.spec_index(pt),
                base + ch <= self.meta.spec_len(),
                c <= ch,
                px@.len() == c,
                forall|k: int| 0 <= k < c ==> px@[k] == self@.level(pt, k),
                forall|k: int| 0 <= k < c ==> 0 <= #[trigger] px@[k] <= LEVEL_MAX,
            decreases ch - c,
        {
            let level = self.meta.kind.to_level(self.data.get(base + c));
            px.push(level);
            c += 1;
        }
        px
    }

    /// Stores the levels of `px` in the channels of the pixel at `pt`, each
    /// clamped and rounded as [`Image::set_f`] does. Nothing else changes.
    pub fn set_pixel(&mut self, pt: Point, px: &Vec<i64>)
        requires
            old(self).wf(),
            pt.within(old(self).meta.size),
            px@.len() == old(self).meta.channels(),
        ensures
            final(self).wf(),
            final(self).meta == old(self).meta,
            final(self)@.levels.len() == old(self)@.levels.len(),
            forall|i: int|
                0 <= i < old(self)@.levels.len() ==> final(self)@.levels[i] == if old(
                    self,
                ).meta.spec_index(pt) <= i < old(self).meta.spec_index(pt) + px@.len() {
                    old(self).meta.kind.quantize(px@[i - old(self).meta.spec_index(pt)] as int)
                } else {
                    old(self)@.levels[i]
                },
    {
        let ch = px.len();
        let ghost base = self.meta.spec_index(pt);
        let ghost meta = self.meta;
        proof {
            lemma_index_bounds(
                meta.size.width as int,
                meta.size.height as int,
                meta.channels() as int,
                pt.x as int,
                pt.y as int,
                0,
            );
        }
        let mut c: usize = 0;
        while c < ch
            invariant
                self.wf(),
                self.meta == meta,
                meta == old(self).meta,
                pt.within(meta.size),
                ch == meta.channels(),
                ch == px@.len(),
                c <= ch,
                base == meta.spec_index(pt),
                0 <= base,
                base + ch <= meta.spec_len(),
                self@.levels.len() == old(self)@.levels.len(),
                forall|i: int|
                    0 <= i < old(self)@.levels.len() ==> self@.levels[i] == if base <= i < base
                        + c {
                        meta.kind.quantize(px@[i - base] as int)
                    } else {
                        old(self)@.levels[i]
                    },
            decreases ch - c,
        {
            self.set_f(pt, c, px[c]);
            c += 1;
        }
    }

    /// Stores `level` in channel `c` of the pixel at `pt`: the level is
    /// clamped and rounded to the nearest sample. Nothing else changes.
    pub fn set_f(&mut self, pt: Point, c: usize, level: i64)
        requires
            old(self).wf(),
            pt.within(old(self).meta.size),
            c < old(self).meta.channels(),
        ensures
            final(self).wf(),
            final(self)@.meta == old(self)@.meta,
            final(self)@.levels == old(self)@.levels.update(
                old(self).meta.spec_index(pt) + c,
                old(self).meta.kind.quantize(level as int),
            ),
    {
        let i = self.meta.index(pt) + c;
        let sample = self.meta.kind.from_level(level);
        self.data.set(i, sample);
        proof {
            lemma_quantize_idempotent(self.meta.kind, level as int);
            assert(self@.levels =~= old(self)@.levels.update(
                i as int,
                self.meta.kind.quantize(level as int),
            ));
        }
    }
}

} // verus!
