use vstd::prelude::*;

use crate::geom::Rect;

verus! {

/// View extent information.
#[derive(Debug, Clone, Copy, PartialEq, Eq, Structural)]
pub struct ViewExtent {
    /// Frame width.
    pub fw: u32,
    /// Frame height.
    pub fh: u32,
    /// Number of frames.
    pub nframes: usize,
}

/// The width of `n` frames of width `fw`, the count taken as a `u32`.
pub open spec fn frames_width(fw: u32, n: int) -> int {
    fw * (n as u32)
}

/// Where the exact width of `n` frames is within `u32`, it is the width the
/// view computes.
pub proof fn lemma_frames_width_exact(fw: u32, n: int)
    requires
        0 <= n,
        fw * n <= u32::MAX,
    ensures
        frames_width(fw, n) == fw * n,
{
    if fw == 0 {
        assert(fw * n == 0) by (nonlinear_arith)
            requires fw == 0;
        assert(fw * (n as u32) == 0) by (nonlinear_arith)
            requires fw == 0;
    } else {
        assert(n <= fw * n) by (nonlinear_arith)
            requires fw > 0, n >= 0;
        assert((n as u32) == n);
    }
}

/// The rectangle of frame `i` in a strip of frames of size `fw` by `fh`,
/// in exact coordinates.
pub open spec fn frame_rect(fw: u32, fh: u32, i: int) -> Rect<u128> {
    Rect { x1: (fw * i) as u128, y1: 0u128, x2: (fw * i + fw) as u128, y2: fh as u128 }
}

impl ViewExtent {
    pub fn new(fw: u32, fh: u32, nframes: usize) -> (e: Self)
        ensures
            e == (ViewExtent { fw, fh, nframes }),
    {
        ViewExtent { fw, fh, nframes }
    }

    /// The total width is within `u32`.
    pub open spec fn width_fits(&self) -> bool {
        frames_width(self.fw, self.nframes as int) <= u32::MAX
    }

    /// Extent total width.
    pub fn width(&self) -> (w: u32)
        requires
            self.width_fits(),
        ensures
            w == frames_width(self.fw, self.nframes as int),
    {
        self.fw * (self.nframes as u32)
    }

    /// Extent total height.
    pub fn height(&self) -> (h: u32)
        ensures
            h == self.fh,
    {
        self.fh
    }

    /// Rect containing the whole extent.
    pub fn rect(&self) -> (r: Rect<u32>)
        requires
            self.width_fits(),
        ensures
            r == (Rect { x1: 0u32, y1: 0u32, x2: frames_width(self.fw, self.nframes as int) as u32, y2: self.fh }),
    {
        Rect::<u32>::origin(self.width(), self.height())
    }

    /// Rect containing a single frame.
    pub fn frame(&self, n: usize) -> (r: Rect<u32>)
        requires
            self.fw * ((n as u32) + 1) <= u32::MAX,
        ensures
            r == (Rect {
                x1: (self.fw * (n as u32)) as u32,
                y1: 0u32,
                x2: (self.fw * (n as u32) + self.fw) as u32,
                y2: self.fh,
            }),
    {
        let n = n as u32;
        proof {
            assert(self.fw * n <= self.fw * (n + 1)) by (nonlinear_arith);
            assert(self.fw * (n + 1) == self.fw * n + self.fw) by (nonlinear_arith);
        }
        Rect::new(self.fw * n, 0, self.fw * n + self.fw, self.fh)
    }
}

/// Every frame of an extent lies within the extent's rectangle.
pub proof fn law_frame_within_extent(e: ViewExtent, n: int)
    requires
        0 <= n < e.nframes,
        e.fw * e.nframes <= u32::MAX,
    ensures
        frame_rect(e.fw, e.fh, n).x1 == e.fw * n,
        frame_rect(e.fw, e.fh, n).x2 == e.fw * n + e.fw,
        frame_rect(e.fw, e.fh, n).x2 <= frames_width(e.fw, e.nframes as int),
{
    assert(e.fw * n + e.fw == e.fw * (n + 1)) by (nonlinear_arith);
    assert(0 <= e.fw * n) by (nonlinear_arith)
        requires n >= 0;
    assert(e.fw * (n + 1) <= e.fw * e.nframes) by (nonlinear_arith)
        requires n + 1 <= e.nframes;
    lemma_frames_width_exact(e.fw, e.nframes as int);
}

} // verus!
