use crate::grids::coords::ICoord;
use vstd::arithmetic::div_mod::lemma_fundamental_div_mod_converse;
use vstd::prelude::*;

verus! {

/// A rectangle with integer values.
#[derive(Debug, Clone, Copy, PartialEq, Eq, Hash, Structural)]
pub struct IRect {
    pub left: isize,
    pub top: isize,
    pub width: usize,
    pub height: usize,
}

impl IRect {
    /// The x of the rightmost column of the rectangle.
    pub open spec fn right_edge(self) -> int {
        self.left + self.width - 1
    }

    /// The y of the lowest row of the rectangle.
    pub open spec fn bottom_edge(self) -> int {
        self.top + self.height - 1
    }

    /// Whether the position lies in the rectangle; positions on the boundary do.
    pub open spec fn holds(self, pos: ICoord) -> bool {
        &&& self.top <= pos.y <= self.bottom_edge()
        &&& self.left <= pos.x <= self.right_edge()
    }

    /// The number of positions in the rectangle.
    pub open spec fn cell_count(self) -> int {
        self.width * self.height
    }

    /// The position with number `k` in reading order: left to right, then top
    /// to bottom, the top left corner being number 0.
    pub open spec fn cell(self, k: int) -> ICoord {
        ICoord {
            x: (self.left + k % (self.width as int)) as isize,
            y: (self.top + k / (self.width as int)) as isize,
        }
    }

    /// Whether every position of the rectangle can be written as a coordinate.
    pub open spec fn fits(self) -> bool {
        &&& self.right_edge() <= isize::MAX
        &&& self.bottom_edge() <= isize::MAX
    }

    /// Every numbered position of the rectangle lies in the rectangle.
    pub proof fn lemma_cells_lie_inside(self, k: int)
        requires
            self.fits(),
            0 <= k < self.cell_count(),
        ensures
            self.holds(self.cell(k)),
    {
        let w = self.width as int;
        let h = self.height as int;
        assert(w > 0 && h > 0) by (nonlinear_arith)
            requires
                0 <= k < w * h,
                0 <= w,
                0 <= h,
        ;
        vstd::arithmetic::div_mod::lemma_fundamental_div_mod(k, w);
        vstd::arithmetic::div_mod::lemma_mod_pos_bound(k, w);
        assert(0 <= k / w < h) by (nonlinear_arith)
            requires
                0 <= k < w * h,
                w > 0,
                k == w * (k / w) + k % w,
                0 <= k % w < w,
        ;
    }

    /// A rectangle from its top left corner and its size.
    pub fn new(left: isize, top: isize, width: usize, height: usize) -> (r: Self)
        ensures
            r == (IRect { left, top, width, height }),
    {
        Self { left, top, width, height }
    }

    /// A rectangle of the given size around a center: half of the width lies
    /// left of the center and half of the height above it, both rounded down.
    pub fn centered(center: ICoord, width: usize, height: usize) -> (r: Self)
        requires
            center.y - height / 2 >= isize::MIN,
            center.x - width / 2 >= isize::MIN,
        ensures
            r == (IRect {
                left: (center.x - width / 2) as isize,
                top: (center.y - height / 2) as isize,
                width,
                height,
            }),
    {
        let top: isize = center.y - (height / 2) as isize;
        let left: isize = center.x - (width / 2) as isize;
        Self::new(left, top, width, height)
    }

    /// Does this rect contain the pos? Points on the boundary count.
    pub fn contains(&self, pos: ICoord) -> (r: bool)
        ensures
            r == self.holds(pos),
    {
        let right: i128 = self.left as i128 + self.width as i128 - 1;
        let bottom: i128 = self.top as i128 + self.height as i128 - 1;
        self.top <= pos.y && bottom >= pos.y as i128 && self.left <= pos.x && right >= pos.x as i128
    }

    /// The number of positions in the rectangle.
    pub fn area(&self) -> (r: usize)
        requires
            self.width * self.height <= usize::MAX,
        ensures
            r == self.width * self.height,
    {
        self.width * self.height
    }

    /// All the positions in the rectangle, in reading order: left to right,
    /// then top to bottom.
    pub fn contained_coords(&self) -> (r: RectIter)
        requires
            self.fits(),
        ensures
            r.rect() == *self,
            r.taken() == 0,
    {
        RectIter::new(*self)
    }

    /// The x of the rightmost column.
    pub fn right(&self) -> (r: isize)
        requires
            isize::MIN <= self.right_edge() <= isize::MAX,
        ensures
            r == self.right_edge(),
    {
        (self.left as i128 + self.width as i128 - 1) as isize
    }

    /// The y of the lowest row.
    pub fn bottom(&self) -> (r: isize)
        requires
            isize::MIN <= self.bottom_edge() <= isize::MAX,
        ensures
            r == self.bottom_edge(),
    {
        (self.top as i128 + self.height as i128 - 1) as isize
    }

    /// This rectangle moved by an offset, its size kept.
    pub open spec fn moved(self, by: ICoord) -> IRect {
        IRect {
            left: (self.left + by.x) as isize,
            top: (self.top + by.y) as isize,
            width: self.width,
            height: self.height,
        }
    }

    /// Whether the corner of this rectangle, moved by an offset, fits the machine's integers.
    pub open spec fn can_move(self, by: ICoord) -> bool {
        &&& isize::MIN <= self.top + by.y <= isize::MAX
        &&& isize::MIN <= self.left + by.x <= isize::MAX
    }

    /// This rectangle moved by an offset, its size kept.
    pub fn shifted(self, by: ICoord) -> (r: IRect)
        requires
            self.can_move(by),
        ensures
            r == self.moved(by),
    {
        IRect { top: self.top + by.y, left: self.left + by.x, ..self }
    }
}

impl core::ops::Add<ICoord> for IRect {
    type Output = IRect;

    /// This rectangle moved by an offset.
    fn add(self, rhs: ICoord) -> (r: IRect) {
        self.shifted(rhs)
    }
}

impl vstd::std_specs::ops::AddSpecImpl<ICoord> for IRect {
    open spec fn obeys_add_spec() -> bool {
        true
    }

    open spec fn add_req(self, rhs: ICoord) -> bool {
        self.can_move(rhs)
    }

    open spec fn add_spec(self, rhs: ICoord) -> IRect {
        self.moved(rhs)
    }
}

/// A walk over the positions of a rectangle in reading order.
pub struct RectIter {
    rect: IRect,
    cursor: ICoord,
    exhausted: bool,
}

impl RectIter {
    #[verifier::type_invariant]
    spec fn inv(&self) -> bool {
        &&& self.rect.fits()
        &&& !self.exhausted ==> self.rect.holds(self.cursor)
        &&& self.rect.width == 0 || self.rect.height == 0 ==> self.exhausted
    }

    /// The rectangle that is walked.
    pub closed spec fn rect(&self) -> IRect {
        self.rect
    }

    /// The number of positions handed out so far.
    pub closed spec fn taken(&self) -> int {
        if self.exhausted {
            self.rect.cell_count()
        } else {
            (self.cursor.y - self.rect.top) * self.rect.width + (self.cursor.x - self.rect.left)
        }
    }

    /// A walk at the top left corner of the rectangle.
    pub fn new(rect: IRect) -> (r: Self)
        requires
            rect.fits(),
        ensures
            r.rect() == rect,
            r.taken() == 0,
    {
        proof {
            assert(rect.width == 0 || rect.height == 0 ==> rect.width * rect.height == 0)
                by (nonlinear_arith);
        }
        Self {
            rect,
            cursor: ICoord::new(rect.left, rect.top),
            // if the rect is just a line, don't output anything.
            exhausted: rect.width == 0 || rect.height == 0,
        }
    }

    /// Hands out the next position in reading order, or nothing once every
    /// position of the rectangle has been handed out.
    pub fn next(&mut self) -> (r: Option<ICoord>)
        ensures
            final(self).rect() == old(self).rect(),
            0 <= old(self).taken() <= old(self).rect().cell_count(),
            old(self).taken() < old(self).rect().cell_count() ==> r == Some(
                old(self).rect().cell(old(self).taken()),
            ) && final(self).taken() == old(self).taken() + 1,
            old(self).taken() == old(self).rect().cell_count() ==> r is None && final(self).taken() == old(self).taken(),
    {
        proof {
            use_type_invariant(&*self);
        }
        if self.exhausted {
            proof {
                assert(0 <= self.rect.width * self.rect.height) by (nonlinear_arith);
            }
            return None;
        }
        let out: ICoord = self.cursor;
        let right: isize = self.rect.right();
        let bottom: isize = self.rect.bottom();
        proof {
            let w = self.rect.width as int;
            let h = self.rect.height as int;
            let cx = out.x - self.rect.left;
            let cy = out.y - self.rect.top;
            lemma_fundamental_div_mod_converse(cy * w + cx, w, cy, cx);
            assert(0 <= cy * w + cx < w * h) by (nonlinear_arith)
                requires
                    0 <= cx < w,
                    0 <= cy < h,
            ;
            assert((cy + 1) * w == cy * w + w) by (nonlinear_arith);
            assert(cy == h - 1 ==> cy * w + w == w * h) by (nonlinear_arith);
        }
        if out.x < right {
            self.cursor = ICoord { x: out.x + 1, y: out.y };
        } else if out.y < bottom {
            self.cursor = ICoord { x: self.rect.left, y: out.y + 1 };
        } else {
            self.exhausted = true;
        }
        Some(out)
    }
}

} // verus!
