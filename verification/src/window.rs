//! The state of a window that shows an image, and of a set of windows.
//!
//! Nothing here draws or reads input: the embedding application hands over
//! the events it received and performs what the state then asks for.

use crate::geometry::{Point, Size};
use crate::image::Image;
use vstd::prelude::*;

verus! {

/// The number that names a window.
pub type WindowId = usize;

/// The keys that the window logic tells apart.
#[derive(Clone, Copy, Debug, PartialEq, Eq, Structural)]
pub enum Key {
    Escape,
    Other,
}

/// What happened to a key.
#[derive(Clone, Copy, Debug, PartialEq, Eq, Structural)]
pub enum Action {
    Release,
    Press,
    Repeat,
}

/// An input event of a window.
#[derive(Clone, Copy, Debug, PartialEq, Eq, Structural)]
pub enum Event {
    /// The pointer moved to a position, in window pixels on arrival and in
    /// image pixels once the window has handled it.
    CursorPos(usize, usize),
    /// The window was resized to a width and a height.
    Size(usize, usize),
    /// The window was asked to close.
    Close,
    /// A key changed its state.
    Key(Key, Action),
    /// Any other event.
    Other,
}

/// Where an image is shown inside a window: the image is scaled by
/// `num / den`, the largest ratio at which it fits, and centred.
#[derive(Clone, Copy, Debug, PartialEq, Eq, Structural)]
pub struct Viewport {
    /// The top-left corner of the shown image, in window pixels.
    pub origin: Point,
    /// The extent of the shown image, in window pixels.
    pub size: Size,
    pub num: usize,
    pub den: usize,
}

/// `v`, or the largest `usize` where `v` is above it.
pub open spec fn clip(v: int) -> usize {
    if v > usize::MAX {
        usize::MAX
    } else {
        v as usize
    }
}

/// `a - b`, or 0 where `b` is larger.
pub open spec fn sat_sub(a: int, b: int) -> int {
    if a >= b {
        a - b
    } else {
        0
    }
}

/// `a * b / c` for a positive `c`, clipped to the range of `usize`; 0 where
/// `c` is 0.
pub open spec fn spec_mul_div(a: int, b: int, c: int) -> usize {
    if c <= 0 {
        0
    } else {
        clip(a * b / c)
    }
}

/// Computes [`spec_mul_div`].
pub fn mul_div(a: usize, b: usize, c: usize) -> (r: usize)
    ensures
        r == spec_mul_div(a as int, b as int, c as int),
{
    if c == 0 {
        return 0;
    }
    assert(a * b <= 0xffff_ffff_ffff_ffff * 0xffff_ffff_ffff_ffff) by (nonlinear_arith)
        requires
            0 <= a <= 0xffff_ffff_ffff_ffff,
            0 <= b <= 0xffff_ffff_ffff_ffff,
    ;
    let q: u128 = (a as u128) * (b as u128) / (c as u128);
    if q > usize::MAX as u128 {
        usize::MAX
    } else {
        q as usize
    }
}

impl Viewport {
    /// The placement of an image of extent `img` in a window of extent
    /// `win`. The ratio is `win.width / img.width` or
    /// `win.height / img.height`, whichever is smaller. An image without
    /// pixels is shown as nothing, at ratio 0.
    pub open spec fn spec_fit(win: Size, img: Size) -> Viewport {
        if img.width == 0 || img.height == 0 {
            Viewport {
                origin: Point { x: win.width / 2, y: win.height / 2 },
                size: Size { width: 0, height: 0 },
                num: 0,
                den: 1,
            }
        } else {
            let (num, den) = if win.width * img.height <= win.height * img.width {
                (win.width, img.width)
            } else {
                (win.height, img.height)
            };
            let width = spec_mul_div(img.width as int, num as int, den as int);
            let height = spec_mul_div(img.height as int, num as int, den as int);
            Viewport {
                origin: Point {
                    x: (sat_sub(win.width as int, width as int) / 2) as usize,
                    y: (sat_sub(win.height as int, height as int) / 2) as usize,
                },
                size: Size { width, height },
                num,
                den,
            }
        }
    }

    /// Computes [`Viewport::spec_fit`].
    pub fn fit(win: Size, img: Size) -> (v: Viewport)
        ensures
            v == Viewport::spec_fit(win, img),
    {
        if img.width == 0 || img.height == 0 {
            return Viewport {
                origin: Point { x: win.width / 2, y: win.height / 2 },
                size: Size { width: 0, height: 0 },
                num: 0,
                den: 1,
            };
        }
        assert(win.width * img.height <= 0xffff_ffff_ffff_ffff * 0xffff_ffff_ffff_ffff
            && win.height * img.width <= 0xffff_ffff_ffff_ffff * 0xffff_ffff_ffff_ffff)
            by (nonlinear_arith)
            requires
                0 <= win.width <= 0xffff_ffff_ffff_ffff,
                0 <= win.height <= 0xffff_ffff_ffff_ffff,
                0 <= img.width <= 0xffff_ffff_ffff_ffff,
                0 <= img.height <= 0xffff_ffff_ffff_ffff,
        ;
        let by_width = (win.width as u128) * (img.height as u128) <= (win.height as u128) * (
        img.width as u128);
        let (num, den) = if by_width {
            (win.width, img.width)
        } else {
            (win.height, img.height)
        };
        let width = mul_div(img.width, num, den);
        let height = mul_div(img.height, num, den);
        Viewport {
            origin: Point {
                x: win.width.saturating_sub(width) / 2,
                y: win.height.saturating_sub(height) / 2,
            },
            size: Size { width, height },
            num,
            den,
        }
    }

    /// The image pixel shown at the window position `pt`: the position is
    /// taken relative to the shown image, held inside it, and divided by
    /// the ratio.
    pub open spec fn spec_locate(self, pt: Point) -> Point {
        let x = sat_sub(pt.x as int, self.origin.x as int);
        let y = sat_sub(pt.y as int, self.origin.y as int);
        let x = if x >= self.size.width {
            sat_sub(self.size.width as int, 1)
        } else {
            x
        };
        let y = if y >= self.size.height {
            sat_sub(self.size.height as int, 1)
        } else {
            y
        };
        Point {
            x: spec_mul_div(x, self.den as int, self.num as int),
            y: spec_mul_div(y, self.den as int, self.num as int),
        }
    }

    /// Computes [`Viewport::spec_locate`].
    pub fn locate(&self, pt: Point) -> (p: Point)
        ensures
            p == self.spec_locate(pt),
    {
        let mut x = pt.x.saturating_sub(self.origin.x);
        let mut y = pt.y.saturating_sub(self.origin.y);
        if x >= self.size.width {
            x = self.size.width.saturating_sub(1);
        }
        if y >= self.size.height {
            y = self.size.height.saturating_sub(1);
        }
        Point { x: mul_div(x, self.den, self.num), y: mul_div(y, self.den, self.num) }
    }
}

/// The image pixel under the window position `pt`, for an image of extent
/// `img` shown in a window of extent `win`.
pub open spec fn spec_fix(win: Size, img: Size, pt: Point) -> Point {
    Viewport::spec_fit(win, img).spec_locate(pt)
}

/// What a window keeps of the events it has handled.
pub struct Tracking {
    pub size: Size,
    pub position: Point,
    pub closed: bool,
}

/// The tracking of a window after it has handled `incoming`, and the
/// events that it passes on: pointer positions are passed on in image
/// pixels, a resize is recorded, and a request to close ends the handling:
/// the request and what follows it are not passed on.
pub open spec fn spec_events(t: Tracking, img: Size, incoming: Seq<Event>) -> (Tracking, Seq<Event>)
    decreases incoming.len(),
{
    if incoming.len() == 0 {
        (t, Seq::empty())
    } else {
        let rest = incoming.drop_first();
        match incoming[0] {
            Event::Close => (Tracking { closed: true, ..t }, Seq::empty()),
            Event::CursorPos(x, y) => {
                let p = spec_fix(t.size, img, Point { x, y });
                let (end, out) = spec_events(Tracking { position: p, ..t }, img, rest);
                (end, seq![Event::CursorPos(p.x, p.y)] + out)
            },
            Event::Size(w, h) => {
                let (end, out) = spec_events(
                    Tracking { size: Size { width: w, height: h }, ..t },
                    img,
                    rest,
                );
                (end, seq![Event::Size(w, h)] + out)
            },
            e => {
                let (end, out) = spec_events(t, img, rest);
                (end, seq![e] + out)
            },
        }
    }
}

/// The calls of the event handler that a batch of handled events asks
/// for: one call without an event where the batch is empty, else one call
/// for each event, in order.
pub open spec fn spec_calls(events: Seq<Event>) -> Seq<Option<Event>> {
    if events.len() == 0 {
        seq![None]
    } else {
        Seq::new(events.len(), |i: int| Some(events[i]))
    }
}

/// Whether an event closes the window it is sent to: the escape key was
/// pressed.
pub open spec fn spec_closes(event: Option<Event>) -> bool {
    event == Some(Event::Key(Key::Escape, Action::Press))
}

/// Decides [`spec_closes`].
pub fn closes(event: &Option<Event>) -> (b: bool)
    ensures
        b == spec_closes(*event),
{
    match event {
        Some(Event::Key(Key::Escape, Action::Press)) => true,
        _ => false,
    }
}

/// A window that shows an image, with a value of the application's own.
pub struct Window<D> {
    pub id: WindowId,
    pub image: Image,
    pub size: Size,
    pub position: Point,
    pub closed: bool,
    pub data: Option<D>,
    pub dirty: bool,
}

impl<D> Window<D> {
    /// What the window keeps of the events it has handled.
    pub open spec fn tracking(&self) -> Tracking {
        Tracking { size: self.size, position: self.position, closed: self.closed }
    }

    /// A window of extent `size` for `image`: open, clean, with the pointer
    /// at the origin and no value attached.
    pub fn new(id: WindowId, image: Image, size: Size) -> (w: Window<D>)
        ensures
            w.id == id,
            w.image == image,
            w.size == size,
            w.position == (Point { x: 0, y: 0 }),
            !w.closed,
            !w.dirty,
            w.data is None,
    {
        Window {
            id,
            image,
            size,
            position: Point { x: 0, y: 0 },
            closed: false,
            data: None,
            dirty: false,
        }
    }

    pub fn id(&self) -> (id: WindowId)
        ensures
            id == self.id,
    {
        self.id
    }

    /// Asks for the image to be drawn again at the next occasion.
    pub fn mark_as_dirty(&mut self)
        ensures
            *final(self) == (Window { dirty: true, ..*old(self) }),
    {
        self.dirty = true;
    }

    pub fn is_dirty(&self) -> (b: bool)
        ensures
            b == self.dirty,
    {
        self.dirty
    }

    /// Handles the events that arrived for the window and returns those to
    /// pass on.
    pub fn events(&mut self, incoming: &Vec<Event>) -> (out: Vec<Event>)
        ensures
            (final(self).tracking(), out@) == spec_events(
                old(self).tracking(),
                old(self).image.meta.size,
                incoming@,
            ),
            final(self).id == old(self).id,
            final(self).image == old(self).image,
            final(self).data == old(self).data,
            final(self).dirty == old(self).dirty,
    {
        let mut out: Vec<Event> = Vec::new();
        let mut i: usize = 0;
        let ghost img = self.image.meta.size;
        let ghost goal = spec_events(self.tracking(), img, incoming@);
        assert(incoming@.skip(0) =~= incoming@);
        assert(out@ + goal.1 =~= goal.1);
        while i < incoming.len()
            invariant_except_break
                i <= incoming.len(),
                goal.0 == spec_events(self.tracking(), img, incoming@.skip(i as int)).0,
                goal.1 == out@ + spec_events(self.tracking(), img, incoming@.skip(i as int)).1,
            invariant
                img == self.image.meta.size,
                self.id == old(self).id,
                self.image == old(self).image,
                self.data == old(self).data,
                self.dirty == old(self).dirty,
            ensures
                goal == (self.tracking(), out@),
            decreases incoming.len() - i,
        {
            let ghost rest = incoming@.skip(i as int);
            let ghost before = out@;
            assert(rest.len() > 0 && rest[0] == incoming@[i as int]);
            assert(rest.drop_first() =~= incoming@.skip(i as int + 1));
            match incoming[i] {
                Event::Close => {
                    self.closed = true;
                    assert(before + Seq::<Event>::empty() =~= before);
                    break ;
                },
                Event::CursorPos(x, y) => {
                    let p = self.fix_mouse_position(Point { x, y });
                    self.position = p;
                    out.push(Event::CursorPos(p.x, p.y));
                },
                Event::Size(w, h) => {
                    self.size = Size { width: w, height: h };
                    out.push(Event::Size(w, h));
                },
                e => {
                    out.push(e);
                },
            }
            proof {
                let tail = spec_events(self.tracking(), img, incoming@.skip(i as int + 1)).1;
                assert(before + (seq![out@.last()] + tail) =~= out@ + tail);
            }
            i += 1;
        }
        proof {
            if i == incoming.len() {
                assert(incoming@.skip(i as int).len() == 0);
                assert(out@ + Seq::<Event>::empty() =~= out@);
            }
        }
        out
    }

    /// Handles the events that arrived and returns the calls of the event
    /// handler to make, in order. Where the window is dirty once the calls
    /// are made, it is to be drawn.
    pub fn handle_events(&mut self, incoming: &Vec<Event>) -> (calls: Vec<Option<Event>>)
        ensures
            final(self).tracking() == spec_events(
                old(self).tracking(),
                old(self).image.meta.size,
                incoming@,
            ).0,
            calls@ == spec_calls(
                spec_events(old(self).tracking(), old(self).image.meta.size, incoming@).1,
            ),
            final(self).id == old(self).id,
            final(self).image == old(self).image,
            final(self).data == old(self).data,
            final(self).dirty == old(self).dirty,
    {
        let events = self.events(incoming);
        let mut calls: Vec<Option<Event>> = Vec::new();
        if events.len() == 0 {
            calls.push(None);
            assert(calls@ =~= spec_calls(events@));
        } else {
            let mut i: usize = 0;
            while i < events.len()
                invariant
                    i <= events.len(),
                    calls@.len() == i,
                    forall|k: int| 0 <= k < i ==> calls@[k] == Some(events@[k]),
                decreases events.len() - i,
            {
                calls.push(Some(events[i]));
                i += 1;
            }
            assert(calls@ =~= spec_calls(events@));
        }
        calls
    }

    /// Attaches a value to the window.
    pub fn set_data(&mut self, data: D)
        ensures
            *final(self) == (Window { data: Some(data), ..*old(self) }),
    {
        self.data = Some(data);
    }

    /// The value attached to the window.
    pub fn data(&self) -> (d: Option<&D>)
        ensures
            d == match self.data {
                Some(v) => Some(&v),
                None => None,
            },
    {
        self.data.as_ref()
    }

    /// The value attached to the window, to be changed in place.
    pub fn data_mut(&mut self) -> (d: Option<&mut D>)
        ensures
            d is Some <==> old(self).data is Some,
            d matches Some(v) ==> old(self).data == Some(*v) && *final(self) == (Window {
                data: Some(*final(v)),
                ..*old(self)
            }),
            d is None ==> *final(self) == *old(self),
    {
        match &mut self.data {
            Some(v) => Some(v),
            None => None,
        }
    }

    /// The position of the pointer, in image pixels.
    pub fn mouse_position(&self) -> (p: Point)
        ensures
            p == self.position,
    {
        self.position
    }

    /// The image pixel under the window position `pt`.
    pub fn fix_mouse_position(&self, pt: Point) -> (p: Point)
        ensures
            p == spec_fix(self.size, self.image.meta.size, pt),
    {
        let view = Viewport::fit(self.size, self.image.meta.size);
        self.scale_mouse_position(pt, &view)
    }

    /// The image pixel shown at the window position `pt` of the placement
    /// `view`.
    pub fn scale_mouse_position(&self, pt: Point, view: &Viewport) -> (p: Point)
        ensures
            p == view.spec_locate(pt),
    {
        view.locate(pt)
    }

    /// The image of the window.
    pub fn into_image(self) -> (img: Image)
        ensures
            img == self.image,
    {
        self.image
    }

    pub fn image(&self) -> (img: &Image)
        ensures
            *img == self.image,
    {
        &self.image
    }

    /// The image of the window, to be changed in place. The window is dirty
    /// afterwards.
    pub fn image_mut(&mut self) -> (img: &mut Image)
        ensures
            *img == old(self).image,
            *final(self) == (Window { image: *final(img), dirty: true, ..*old(self) }),
    {
        self.dirty = true;
        &mut self.image
    }

    /// Whether the window is closed: it was closed here, or the windowing
    /// system, whose answer is `should_close`, says that it should close.
    pub fn is_closed(&self, should_close: bool) -> (b: bool)
        ensures
            b == (self.closed || should_close),
    {
        self.closed || should_close
    }

    /// Closes the window.
    pub fn close(&mut self)
        ensures
            *final(self) == (Window { closed: true, ..*old(self) }),
    {
        self.closed = true;
    }

    /// Where the image is to be drawn in the window: scaled by the largest
    /// ratio at which it fits, and centred. An image with pixels is never
    /// shown larger than the window. Nothing changes.
    pub fn placement(&self) -> (view: Viewport)
        ensures
            view == Viewport::spec_fit(self.size, self.image.meta.size),
            self.image.meta.size.width > 0 && self.image.meta.size.height > 0
                ==> view.size.width <= self.size.width && view.size.height <= self.size.height,
    {
        proof {
            if self.image.meta.size.width > 0 && self.image.meta.size.height > 0 {
                lemma_fix_inside(self.size, self.image.meta.size, Point { x: 0, y: 0 });
            }
        }
        Viewport::fit(self.size, self.image.meta.size)
    }

    /// Takes note of how drawing the image at its [`Window::placement`]
    /// ended, and hands the outcome on. After a draw that succeeded the
    /// window is clean; after one that failed it is as dirty as it was, so
    /// that the draw is tried again. Nothing else changes.
    pub fn draw<E>(&mut self, outcome: Result<(), E>) -> (r: Result<(), E>)
        ensures
            r == outcome,
            *final(self) == (Window { dirty: old(self).dirty && outcome is Err, ..*old(self) }),
    {
        if outcome.is_ok() {
            self.dirty = false;
        }
        outcome
    }
}

/// The shown image fits the window, and every window position is located
/// at a pixel of the image: for an image with pixels, the extent of the
/// placement is at most that of the window, and the located position lies
/// inside the image.
pub proof fn lemma_fix_inside(win: Size, img: Size, pt: Point)
    requires
        img.width > 0,
        img.height > 0,
    ensures
        Viewport::spec_fit(win, img).size.width <= win.width,
        Viewport::spec_fit(win, img).size.height <= win.height,
        spec_fix(win, img, pt).within(img),
{
    let v = Viewport::spec_fit(win, img);
    let num = v.num as int;
    let den = v.den as int;
    lemma_scaled_extent(img.width as int, img.height as int, win.width as int, win.height as int);
    let x = sat_sub(pt.x as int, v.origin.x as int);
    let x = if x >= v.size.width {
        sat_sub(v.size.width as int, 1)
    } else {
        x
    };
    let y = sat_sub(pt.y as int, v.origin.y as int);
    let y = if y >= v.size.height {
        sat_sub(v.size.height as int, 1)
    } else {
        y
    };
    lemma_located(x, img.width as int, num, den);
    lemma_located(y, img.height as int, num, den);
}

/// With the smaller of the two ratios, both scaled dimensions fit.
proof fn lemma_scaled_extent(iw: int, ih: int, sw: int, sh: int)
    requires
        iw > 0,
        ih > 0,
        sw >= 0,
        sh >= 0,
    ensures
        sw * ih <= sh * iw ==> iw * sw / iw <= sw && ih * sw / iw <= sh,
        sw * ih > sh * iw ==> iw * sh / ih <= sw && ih * sh / ih <= sh,
{
    if sw * ih <= sh * iw {
        assert(iw * sw <= sw * iw && ih * sw <= sh * iw) by (nonlinear_arith)
            requires
                sw * ih <= sh * iw,
        ;
        lemma_quotient_at_most(iw * sw, iw, sw);
        lemma_quotient_at_most(ih * sw, iw, sh);
    } else {
        assert(iw * sh <= sw * ih && ih * sh <= sh * ih) by (nonlinear_arith)
            requires
                sw * ih > sh * iw,
        ;
        lemma_quotient_at_most(iw * sh, ih, sw);
        lemma_quotient_at_most(ih * sh, ih, sh);
    }
}

proof fn lemma_quotient_at_most(a: int, d: int, bound: int)
    requires
        d > 0,
        a <= bound * d,
    ensures
        a / d <= bound,
{
    vstd::arithmetic::div_mod::lemma_fundamental_div_mod(a, d);
    let q = a / d;
    assert(q <= bound) by (nonlinear_arith)
        requires
            a == d * q + a % d,
            0 <= a % d < d,
            a <= bound * d,
            d > 0,
    ;
}

/// A position inside the shown image is located inside the image.
proof fn lemma_located(x: int, extent: int, num: int, den: int)
    requires
        extent > 0,
        den > 0,
        num >= 0,
        0 <= x,
        x < spec_mul_div(extent, num, den) || x == 0,
    ensures
        spec_mul_div(x, den, num) < extent,
{
    if num > 0 && x > 0 {
        let shown = extent * num / den;
        vstd::arithmetic::div_mod::lemma_fundamental_div_mod(extent * num, den);
        vstd::arithmetic::div_mod::lemma_fundamental_div_mod(x * den, num);
        let q = x * den / num;
        assert(x < shown);
        assert(q < extent) by (nonlinear_arith)
            requires
                x * den == num * q + (x * den) % num,
                0 <= (x * den) % num < num,
                extent * num == den * shown + (extent * num) % den,
                0 <= (extent * num) % den < den,
                x < shown,
                0 < den,
                0 < num,
                0 < extent,
                0 <= x,
        ;
    } else if num > 0 {
        assert(x * den == 0) by (nonlinear_arith)
            requires
                x == 0,
        ;
    }
}

} // verus!
