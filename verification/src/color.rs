//! Filters that weigh the channels of a pixel against each other:
//! conversion between color models and saturation.

use crate::error::Error;
use crate::filter::{views, Filter, FilterModel};
use crate::geometry::Point;
use crate::image::{Image, ImageView, Meta};
use crate::sample::{ColorModel, LEVEL_MAX};
use crate::tone::{div_floor, pointwise_refusal, pointwise_source, Factor};
use vstd::prelude::*;

verus! {

/// A color as red, green, blue and opacity.
pub struct Rgba {
    pub r: int,
    pub g: int,
    pub b: int,
    pub a: int,
}

/// The gray level with the brightness of a color.
pub open spec fn luminance(r: int, g: int, b: int) -> int {
    (299 * r + 587 * g + 114 * b) / 1000
}

/// The color of the pixel at `pt`. A gray level is the same in all three
/// colors; a model without opacity is opaque.
pub open spec fn rgba_of(iv: ImageView, pt: Point) -> Rgba {
    match iv.meta.color {
        ColorModel::Gray => Rgba {
            r: iv.level(pt, 0),
            g: iv.level(pt, 0),
            b: iv.level(pt, 0),
            a: LEVEL_MAX as int,
        },
        ColorModel::Rgb => Rgba {
            r: iv.level(pt, 0),
            g: iv.level(pt, 1),
            b: iv.level(pt, 2),
            a: LEVEL_MAX as int,
        },
        ColorModel::Rgba => Rgba {
            r: iv.level(pt, 0),
            g: iv.level(pt, 1),
            b: iv.level(pt, 2),
            a: iv.level(pt, 3),
        },
        ColorModel::Xyz => {
            let x = iv.level(pt, 0);
            let y = iv.level(pt, 1);
            let z = iv.level(pt, 2);
            Rgba {
                r: (32406 * x - 15372 * y - 4986 * z) / 10000,
                g: (-9689 * x + 18758 * y + 415 * z) / 10000,
                b: (557 * x - 2040 * y + 10570 * z) / 10000,
                a: LEVEL_MAX as int,
            }
        },
    }
}

/// Channel `c` of a color in the model `target`.
pub open spec fn channel_of(target: ColorModel, color: Rgba, c: int) -> int {
    match target {
        ColorModel::Gray => luminance(color.r, color.g, color.b),
        ColorModel::Rgb | ColorModel::Rgba => if c == 0 {
            color.r
        } else if c == 1 {
            color.g
        } else if c == 2 {
            color.b
        } else {
            color.a
        },
        ColorModel::Xyz => if c == 0 {
            (4124 * color.r + 3576 * color.g + 1805 * color.b) / 10000
        } else if c == 1 {
            (2126 * color.r + 7152 * color.g + 722 * color.b) / 10000
        } else {
            (193 * color.r + 1192 * color.g + 9505 * color.b) / 10000
        },
    }
}

/// Computes [`rgba_of`].
fn read_rgba(src: &Image, pt: Point) -> (c: (i64, i64, i64, i64))
    requires
        src.wf(),
        pt.within(src.meta.size),
    ensures
        -0x1_0000_0000 <= c.0 <= 0x1_0000_0000,
        -0x1_0000_0000 <= c.1 <= 0x1_0000_0000,
        -0x1_0000_0000 <= c.2 <= 0x1_0000_0000,
        rgba_of(src@, pt) == (Rgba {
            r: c.0 as int,
            g: c.1 as int,
            b: c.2 as int,
            a: c.3 as int,
        }),
{
    match src.meta.color {
        ColorModel::Gray => {
            let l = src.get_f(pt, 0);
            (l, l, l, LEVEL_MAX)
        },
        ColorModel::Rgb => (src.get_f(pt, 0), src.get_f(pt, 1), src.get_f(pt, 2), LEVEL_MAX),
        ColorModel::Rgba => (
            src.get_f(pt, 0),
            src.get_f(pt, 1),
            src.get_f(pt, 2),
            src.get_f(pt, 3),
        ),
        ColorModel::Xyz => {
            let x = src.get_f(pt, 0);
            let y = src.get_f(pt, 1);
            let z = src.get_f(pt, 2);
            (
                div_floor(32406 * x - 15372 * y - 4986 * z, 10000),
                div_floor(18758 * y + 415 * z - 9689 * x, 10000),
                div_floor(557 * x - 2040 * y + 10570 * z, 10000),
                LEVEL_MAX,
            )
        },
    }
}

/// Computes [`channel_of`].
fn write_channel(target: ColorModel, color: (i64, i64, i64, i64), c: usize) -> (level: i64)
    requires
        -0x1_0000_0000 <= color.0 <= 0x1_0000_0000,
        -0x1_0000_0000 <= color.1 <= 0x1_0000_0000,
        -0x1_0000_0000 <= color.2 <= 0x1_0000_0000,
    ensures
        level == channel_of(
            target,
            Rgba { r: color.0 as int, g: color.1 as int, b: color.2 as int, a: color.3 as int },
            c as int,
        ),
{
    let (r, g, b, a) = color;
    match target {
        ColorModel::Gray => div_floor(299 * r + 587 * g + 114 * b, 1000),
        ColorModel::Rgb | ColorModel::Rgba => if c == 0 {
            r
        } else if c == 1 {
            g
        } else if c == 2 {
            b
        } else {
            a
        },
        ColorModel::Xyz => if c == 0 {
            div_floor(4124 * r + 3576 * g + 1805 * b, 10000)
        } else if c == 1 {
            div_floor(2126 * r + 7152 * g + 722 * b, 10000)
        } else {
            div_floor(193 * r + 1192 * g + 9505 * b, 10000)
        },
    }
}

/// Changes the color model: the output holds the colors of the input in
/// the model `target`, which is the model of the destination.
#[derive(Clone, Copy, Debug)]
pub struct Convert {
    pub target: ColorModel,
}

impl Convert {
    pub fn new(target: ColorModel) -> (f: Convert)
        ensures
            f.target == target,
    {
        Convert { target }
    }
}

impl FilterModel for Convert {
    open spec fn refusal_at(&self, pt: Point, inputs: Seq<ImageView>, out: Meta) -> Option<Error> {
        if inputs.len() == 0 {
            Some(Error::Mismatch)
        } else if out.color != self.target {
            Some(Error::Mismatch)
        } else if !pt.within(inputs[0].meta.size) {
            Some(Error::OutOfBounds)
        } else {
            None
        }
    }

    open spec fn level_at(&self, pt: Point, c: int, inputs: Seq<ImageView>, out: Meta) -> int {
        if inputs[0].meta.color == self.target {
            inputs[0].level(pt, c)
        } else {
            channel_of(self.target, rgba_of(inputs[0], pt), c)
        }
    }
}

impl Filter for Convert {
    fn compute_at(&self, pt: Point, inputs: &[&Image], out: Meta, px: &mut Vec<i64>) -> (r:
        Result<(), Error>) {
        if inputs.len() == 0 {
            return Err(Error::Mismatch);
        }
        let src: &Image = inputs[0];
        assert(src@ == views(inputs@)[0]);
        if out.color != self.target {
            return Err(Error::Mismatch);
        }
        if !src.in_bounds(pt) {
            return Err(Error::OutOfBounds);
        }
        let from = src.get_pixel(pt);
        let same = src.meta.color == self.target;
        let color = read_rgba(src, pt);
        let ch = px.len();
        let mut c: usize = 0;
        while c < ch
            invariant
                src.wf(),
                pt.within(src.meta.size),
                ch == self.target.spec_channels(),
                px@.len() == ch,
                c <= ch,
                same == (src.meta.color == self.target),
                from@.len() == src.meta.channels(),
                forall|k: int| 0 <= k < from@.len() ==> from@[k] == src@.level(pt, k),
                -0x1_0000_0000 <= color.0 <= 0x1_0000_0000,
                -0x1_0000_0000 <= color.1 <= 0x1_0000_0000,
                -0x1_0000_0000 <= color.2 <= 0x1_0000_0000,
                rgba_of(src@, pt) == (Rgba {
                    r: color.0 as int,
                    g: color.1 as int,
                    b: color.2 as int,
                    a: color.3 as int,
                }),
                forall|k: int|
                    0 <= k < c ==> px@[k] == self.level_at(pt, k, seq![src@], out),
            decreases ch - c,
        {
            let level = if same {
                from[c]
            } else {
                write_channel(self.target, color, c)
            };
            px.set(c, level);
            c += 1;
        }
        assert forall|k: int| 0 <= k < out.channels() implies px@[k] == self.level_at(
            pt,
            k,
            views(inputs@),
            out,
        ) by {
            assert(px@[k] == self.level_at(pt, k, seq![src@], out));
        }
        Ok(())
    }
}

/// Moves every color away from the gray of its brightness, or towards it:
/// each color channel becomes the gray level plus `factor` times its
/// distance from the gray level. Opacity is kept.
#[derive(Clone, Copy, Debug)]
pub struct Saturation(pub Factor);

/// The gray level with the brightness of the pixel at `pt`.
pub open spec fn gray_of(iv: ImageView, pt: Point) -> int {
    match iv.meta.color {
        ColorModel::Gray => iv.level(pt, 0),
        ColorModel::Rgb | ColorModel::Rgba => luminance(
            iv.level(pt, 0),
            iv.level(pt, 1),
            iv.level(pt, 2),
        ),
        ColorModel::Xyz => iv.level(pt, 1),
    }
}

impl FilterModel for Saturation {
    open spec fn refusal_at(&self, pt: Point, inputs: Seq<ImageView>, out: Meta) -> Option<Error> {
        pointwise_refusal(pt, inputs, out)
    }

    open spec fn level_at(&self, pt: Point, c: int, inputs: Seq<ImageView>, out: Meta) -> int {
        if inputs[0].meta.color == ColorModel::Rgba && c == 3 {
            inputs[0].level(pt, c)
        } else {
            let gray = gray_of(inputs[0], pt);
            gray + (inputs[0].level(pt, c) - gray) * self.0.0 / 1000
        }
    }
}

impl Filter for Saturation {
    fn compute_at(&self, pt: Point, inputs: &[&Image], out: Meta, px: &mut Vec<i64>) -> (r:
        Result<(), Error>) {
        let src = match pointwise_source(pt, inputs, out) {
            Ok(src) => src,
            Err(e) => {
                return Err(e);
            },
        };
        let from = src.get_pixel(pt);
        let gray: i64 = match src.meta.color {
            ColorModel::Gray => from[0],
            ColorModel::Rgb | ColorModel::Rgba => div_floor(
                299 * from[0] + 587 * from[1] + 114 * from[2],
                1000,
            ),
            ColorModel::Xyz => from[1],
        };
        let factor: i64 = self.0.0 as i64;
        let keep_last = match src.meta.color {
            ColorModel::Rgba => true,
            _ => false,
        };
        let ch = px.len();
        let mut c: usize = 0;
        while c < ch
            invariant
                src.wf(),
                pt.within(src.meta.size),
                ch == src.meta.channels(),
                px@.len() == ch,
                c <= ch,
                factor == self.0.0,
                keep_last == (src.meta.color == ColorModel::Rgba),
                gray == gray_of(src@, pt),
                0 <= gray <= LEVEL_MAX,
                from@.len() == ch,
                forall|k: int| 0 <= k < ch ==> from@[k] == src@.level(pt, k),
                forall|k: int| 0 <= k < ch ==> 0 <= #[trigger] from@[k] <= LEVEL_MAX,
                forall|k: int|
                    0 <= k < c ==> px@[k] == self.level_at(pt, k, seq![src@], out),
            decreases ch - c,
        {
            let level = if keep_last && c == 3 {
                from[c]
            } else {
                let away = from[c] - gray;
                assert(-0x8000_0000 * 65535 <= away * factor <= 0x8000_0000 * 65535)
                    by (nonlinear_arith)
                    requires
                        -65535 <= away <= 65535,
                        -0x8000_0000 <= factor < 0x8000_0000,
                ;
                gray + div_floor(away * factor, 1000)
            };
            px.set(c, level);
            c += 1;
        }
        assert forall|k: int| 0 <= k < out.channels() implies px@[k] == self.level_at(
            pt,
            k,
            views(inputs@),
            out,
        ) by {
            assert(px@[k] == self.level_at(pt, k, seq![src@], out));
        }
        Ok(())
    }
}

} // verus!
