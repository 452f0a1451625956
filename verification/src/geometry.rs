//! Points, sizes and regions on the pixel grid.
//!
//! The origin is the top-left pixel, `x` grows to the right and `y` grows
//! downwards.

use vstd::prelude::*;

verus! {

/// A pixel position.
#[derive(Clone, Copy, Debug, PartialEq, Eq, Structural)]
pub struct Point {
    pub x: usize,
    pub y: usize,
}

/// The extent of an image or of a region, in pixels.
#[derive(Clone, Copy, Debug, PartialEq, Eq, Structural)]
pub struct Size {
    pub width: usize,
    pub height: usize,
}

/// An axis-aligned rectangle: its top-left pixel and its extent.
#[derive(Clone, Copy, Debug, PartialEq, Eq, Structural)]
pub struct Region {
    pub origin: Point,
    pub size: Size,
}

impl Point {
    pub fn new(x: usize, y: usize) -> (p: Point)
        ensures
            p == (Point { x, y }),
    {
        Point { x, y }
    }

    /// Whether the point addresses a pixel of an image of extent `size`.
    pub open spec fn within(self, size: Size) -> bool {
        self.x < size.width && self.y < size.height
    }
}

impl Default for Point {
    fn default() -> (p: Point)
        ensures
            p == (Point { x: 0, y: 0 }),
    {
        Point { x: 0, y: 0 }
    }
}

impl Size {
    pub fn new(width: usize, height: usize) -> (s: Size)
        ensures
            s == (Size { width, height }),
    {
        Size { width, height }
    }

    /// The number of pixels.
    pub open spec fn area(self) -> nat {
        (self.width * self.height) as nat
    }

    /// Whether `pt` addresses a pixel of an image of this extent.
    pub fn contains(&self, pt: Point) -> (b: bool)
        ensures
            b == pt.within(*self),
    {
        pt.x < self.width && pt.y < self.height
    }

    /// Both dimensions multiplied by `factor`, or `None` where a product
    /// does not fit.
    pub fn scaled(&self, factor: usize) -> (r: Option<Size>)
        ensures
            r is Some <==> self.width * factor <= usize::MAX && self.height * factor
                <= usize::MAX,
            r matches Some(s) ==> s.width == self.width * factor && s.height == self.height
                * factor,
    {
        match (self.width.checked_mul(factor), self.height.checked_mul(factor)) {
            (Some(width), Some(height)) => Some(Size { width, height }),
            _ => None,
        }
    }
}

impl Region {
    pub fn new(origin: Point, size: Size) -> (r: Region)
        ensures
            r == (Region { origin, size }),
    {
        Region { origin, size }
    }

    /// Whether the whole region lies inside an image of extent `size`.
    pub open spec fn fits(self, size: Size) -> bool {
        self.origin.x + self.size.width <= size.width && self.origin.y + self.size.height
            <= size.height
    }

    /// Whether `pt` lies inside the region.
    pub open spec fn covers(self, pt: Point) -> bool {
        self.origin.x <= pt.x < self.origin.x + self.size.width && self.origin.y <= pt.y
            < self.origin.y + self.size.height
    }

    /// Decides [`Region::fits`].
    pub fn in_bounds(&self, size: Size) -> (b: bool)
        ensures
            b == self.fits(size),
    {
        self.origin.x <= size.width && self.size.width <= size.width - self.origin.x
            && self.origin.y <= size.height && self.size.height <= size.height - self.origin.y
    }

    /// Decides [`Region::covers`].
    pub fn contains(&self, pt: Point) -> (b: bool)
        ensures
            b == self.covers(pt),
    {
        self.origin.x <= pt.x && pt.x - self.origin.x < self.size.width && self.origin.y <= pt.y
            && pt.y - self.origin.y < self.size.height
    }
}

} // verus!
