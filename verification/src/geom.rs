use vstd::prelude::*;

verus! {

/// A rectangle given by its bottom left `(x1, y1)` and top right `(x2, y2)`
/// coordinates.
#[derive(Copy, Clone, PartialEq, Eq, Debug, Default)]
pub struct Rect<T> {
    pub x1: T,
    pub y1: T,
    pub x2: T,
    pub y2: T,
}

impl<T> Rect<T> {
    /// A rectangle with the given corners.
    pub fn new(x1: T, y1: T, x2: T, y2: T) -> (r: Self)
        ensures
            r == (Rect { x1, y1, x2, y2 }),
    {
        Rect { x1, y1, x2, y2 }
    }
}

impl Rect<u32> {
    /// The rectangle from the origin to `(w, h)`.
    pub fn origin(w: u32, h: u32) -> (r: Self)
        ensures
            r == (Rect { x1: 0u32, y1: 0u32, x2: w, y2: h }),
    {
        Rect { x1: 0, y1: 0, x2: w, y2: h }
    }
}

impl Rect<i32> {
    /// The rectangle from the origin to `(w, h)`.
    pub fn origin(w: i32, h: i32) -> (r: Self)
        ensures
            r == (Rect { x1: 0i32, y1: 0i32, x2: w, y2: h }),
    {
        Rect { x1: 0, y1: 0, x2: w, y2: h }
    }
}

/// View coordinates.
///
/// These coordinates are relative to the bottom left corner of the view.
#[derive(Copy, Clone, PartialEq, Debug)]
pub struct ViewCoords<T> {
    pub x: T,
    pub y: T,
}

/// `v` held to the interval `[lo, hi]` in the way the view does it: first
/// raised to `lo`, then lowered to `hi`.
pub open spec fn clamp_coord(v: i32, lo: i32, hi: i32) -> i32 {
    let raised = if v < lo { lo } else { v };
    if raised > hi { hi } else { raised }
}

impl<T> ViewCoords<T> {
    pub fn new(x: T, y: T) -> (c: Self)
        ensures
            c == (ViewCoords { x, y }),
    {
        ViewCoords { x, y }
    }
}

impl ViewCoords<i32> {
    /// Move the coordinates into `rect`, coordinate by coordinate.
    pub fn clamp(&mut self, rect: Rect<i32>)
        ensures
            final(self).x == clamp_coord(old(self).x, rect.x1, rect.x2),
            final(self).y == clamp_coord(old(self).y, rect.y1, rect.y2),
    {
        if self.x < rect.x1 {
            self.x = rect.x1;
        }
        if self.y < rect.y1 {
            self.y = rect.y1;
        }
        if self.x > rect.x2 {
            self.x = rect.x2;
        }
        if self.y > rect.y2 {
            self.y = rect.y2;
        }
    }
}

/// Clamping to a non-empty interval gives a value within it, and leaves a
/// value within it unchanged.
pub proof fn law_clamp_inside(v: i32, lo: i32, hi: i32)
    requires
        lo <= hi,
    ensures
        lo <= clamp_coord(v, lo, hi) <= hi,
        lo <= v <= hi ==> clamp_coord(v, lo, hi) == v,
{
}

} // verus!
