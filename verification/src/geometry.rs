use vstd::prelude::*;
use crate::error::DevelopError;

verus! {

/// Width and height of a pixel area.
#[derive(Clone, Copy, Debug, PartialEq, Eq, Structural)]
pub struct Dim2 {
    pub w: usize,
    pub h: usize,
}

/// A pixel position.
#[derive(Clone, Copy, Debug, PartialEq, Eq, Structural)]
pub struct Point {
    pub x: usize,
    pub y: usize,
}

/// An axis-aligned rectangle: its top left corner and its size.
#[derive(Clone, Copy, Debug, PartialEq, Eq, Structural)]
pub struct Rect {
    pub p: Point,
    pub d: Dim2,
}

impl Dim2 {
    pub fn new(w: usize, h: usize) -> (r: Self)
        ensures
            r == (Dim2 { w, h }),
    {
        Dim2 { w, h }
    }

    /// Number of pixels of the area.
    pub open spec fn area(self) -> int {
        self.w * self.h
    }

    pub fn is_empty(&self) -> (r: bool)
        ensures
            r == (self.w == 0 && self.h == 0),
    {
        self.w == 0 && self.h == 0
    }
}

impl Point {
    pub fn new(x: usize, y: usize) -> (r: Self)
        ensures
            r == (Point { x, y }),
    {
        Point { x, y }
    }

    pub fn zero() -> (r: Self)
        ensures
            r == (Point { x: 0, y: 0 }),
    {
        Point { x: 0, y: 0 }
    }
}

impl Rect {
    pub fn new(p: Point, d: Dim2) -> (r: Self)
        ensures
            r == (Rect { p, d }),
    {
        Rect { p, d }
    }

    /// The rectangle spanned by its top left and bottom right corners.
    pub fn new_with_points(p1: Point, p2: Point) -> (r: Self)
        requires
            p1.x <= p2.x,
            p1.y <= p2.y,
        ensures
            r.p == p1,
            r.d.w == p2.x - p1.x,
            r.d.h == p2.y - p1.y,
    {
        Rect { p: p1, d: Dim2 { w: p2.x - p1.x, h: p2.y - p1.y } }
    }

    /// The rectangle of a whole sensor of the given size.
    pub open spec fn full(width: usize, height: usize) -> Rect {
        Rect { p: Point { x: 0, y: 0 }, d: Dim2 { w: width, h: height } }
    }

    /// Every pixel of `self` is a pixel of `master`.
    pub open spec fn within(self, master: Rect) -> bool {
        &&& master.p.x <= self.p.x
        &&& master.p.y <= self.p.y
        &&& self.p.x + self.d.w <= master.p.x + master.d.w
        &&& self.p.y + self.d.h <= master.p.y + master.d.h
    }

    /// `self` with its corner counted from the corner of `master`.
    pub open spec fn relative_to(self, master: Rect) -> Rect {
        Rect {
            p: Point {
                x: (self.p.x - master.p.x) as usize,
                y: (self.p.y - master.p.y) as usize,
            },
            d: self.d,
        }
    }

    pub fn is_within(&self, master: &Rect) -> (r: bool)
        ensures
            r == self.within(*master),
    {
        if self.p.x < master.p.x || self.p.y < master.p.y {
            return false;
        }
        // Compared by the distance to the corner of `master`, so that no sum
        // is formed that could leave the machine's range.
        let dx: usize = self.p.x - master.p.x;
        let dy: usize = self.p.y - master.p.y;
        dx <= master.d.w && self.d.w <= master.d.w - dx && dy <= master.d.h && self.d.h
            <= master.d.h - dy
    }

    /// Re-expresses `self` relative to the corner of `master`. Fails exactly
    /// when `self` does not lie within `master`.
    pub fn adapt(&self, master: &Rect) -> (r: Result<Rect, DevelopError>)
        ensures
            self.within(*master) ==> r == Ok::<Rect, DevelopError>(self.relative_to(*master)),
            !self.within(*master) ==> r == Err::<Rect, DevelopError>(
                DevelopError::CropOutOfBounds,
            ),
    {
        if self.is_within(master) {
            Ok(Rect {
                p: Point { x: self.p.x - master.p.x, y: self.p.y - master.p.y },
                d: self.d,
            })
        } else {
            Err(DevelopError::CropOutOfBounds)
        }
    }
}

/// A rectangle adapted to the master it lies in lies within the master's
/// size counted from the origin.
pub proof fn lemma_adapted_within(r: Rect, master: Rect)
    requires
        r.within(master),
    ensures
        r.relative_to(master).within(Rect::full(master.d.w, master.d.h)),
{
}

/// A rectangle within the sensor that is as large as the sensor is the
/// sensor's rectangle.
pub proof fn lemma_full_size_is_full(r: Rect, width: usize, height: usize)
    requires
        r.within(Rect::full(width, height)),
        r.d == (Dim2 { w: width, h: height }),
    ensures
        r == Rect::full(width, height),
{
}

} // verus!
