use vstd::prelude::*;

verus! {

/// A simple rectangle used in the computation of the layout and to give
/// widgets a hint about the area they are supposed to render to.
#[derive(Debug, Clone, Copy, Hash, PartialEq, Eq, Structural)]
pub struct Rect {
    pub x: usize,
    pub y: usize,
    pub width: usize,
    pub height: usize,
}

impl Rect {
    /// The exclusive right edge, as a mathematical integer.
    pub open spec fn spec_right(self) -> int {
        self.x + self.width
    }

    /// The exclusive bottom edge, as a mathematical integer.
    pub open spec fn spec_bottom(self) -> int {
        self.y + self.height
    }

    /// Whether the two rectangles overlap in a region of positive area.
    pub open spec fn spec_intersects(self, other: Rect) -> bool {
        &&& self.x < other.spec_right()
        &&& other.x < self.spec_right()
        &&& self.y < other.spec_bottom()
        &&& other.y < self.spec_bottom()
    }
}

impl Default for Rect {
    fn default() -> (r: Rect)
        ensures
            r == (Rect { x: 0, y: 0, width: 0, height: 0 }),
    {
        Rect { x: 0, y: 0, width: 0, height: 0 }
    }
}

impl Rect {
    pub fn new(x: usize, y: usize, width: usize, height: usize) -> (r: Rect)
        ensures
            r == (Rect { x, y, width, height }),
    {
        Rect { x, y, width, height }
    }

    pub fn area(&self) -> (r: usize)
        requires
            self.width * self.height <= usize::MAX,
        ensures
            r == self.width * self.height,
    {
        self.width * self.height
    }

    pub fn left(&self) -> (r: usize)
        ensures
            r == self.x,
    {
        self.x
    }

    pub fn right(&self) -> (r: usize)
        requires
            self.spec_right() <= usize::MAX,
        ensures
            r == self.spec_right(),
    {
        self.x + self.width
    }

    pub fn top(&self) -> (r: usize)
        ensures
            r == self.y,
    {
        self.y
    }

    pub fn bottom(&self) -> (r: usize)
        requires
            self.spec_bottom() <= usize::MAX,
        ensures
            r == self.spec_bottom(),
    {
        self.y + self.height
    }

    /// Shrinks the rectangle by `margin` on every side; a rectangle too
    /// small to contain the margin collapses to the zero rectangle.
    pub fn inner(&self, margin: usize) -> (r: Rect)
        requires
            self.spec_right() <= usize::MAX,
            self.spec_bottom() <= usize::MAX,
        ensures
            r == if self.width < 2 * margin || self.height < 2 * margin {
                Rect { x: 0, y: 0, width: 0, height: 0 }
            } else {
                Rect {
                    x: (self.x + margin) as usize,
                    y: (self.y + margin) as usize,
                    width: (self.width - 2 * margin) as usize,
                    height: (self.height - 2 * margin) as usize,
                }
            },
    {
        if self.width / 2 < margin || self.height / 2 < margin {
            Rect::default()
        } else {
            Rect {
                x: self.x + margin,
                y: self.y + margin,
                width: self.width - 2 * margin,
                height: self.height - 2 * margin,
            }
        }
    }

    /// The smallest rectangle containing both.
    pub fn union(&self, other: &Rect) -> (r: Rect)
        requires
            self.spec_right() <= usize::MAX,
            other.spec_right() <= usize::MAX,
            self.spec_bottom() <= usize::MAX,
            other.spec_bottom() <= usize::MAX,
        ensures
            r.x == if self.x <= other.x { self.x } else { other.x },
            r.y == if self.y <= other.y { self.y } else { other.y },
            r.x + r.width == if self.spec_right() >= other.spec_right() {
                self.spec_right()
            } else {
                other.spec_right()
            },
            r.y + r.height == if self.spec_bottom() >= other.spec_bottom() {
                self.spec_bottom()
            } else {
                other.spec_bottom()
            },
    {
        let x1 = if self.x <= other.x { self.x } else { other.x };
        let y1 = if self.y <= other.y { self.y } else { other.y };
        let r1 = self.x + self.width;
        let r2 = other.x + other.width;
        let b1 = self.y + self.height;
        let b2 = other.y + other.height;
        let x2 = if r1 >= r2 { r1 } else { r2 };
        let y2 = if b1 >= b2 { b1 } else { b2 };
        Rect { x: x1, y: y1, width: x2 - x1, height: y2 - y1 }
    }

    /// The common region of two overlapping rectangles.
    pub fn intersection(&self, other: &Rect) -> (r: Rect)
        requires
            self.spec_right() <= usize::MAX,
            other.spec_right() <= usize::MAX,
            self.spec_bottom() <= usize::MAX,
            other.spec_bottom() <= usize::MAX,
            self.spec_intersects(*other),
        ensures
            r.x == if self.x >= other.x { self.x } else { other.x },
            r.y == if self.y >= other.y { self.y } else { other.y },
            r.x + r.width == if self.spec_right() <= other.spec_right() {
                self.spec_right()
            } else {
                other.spec_right()
            },
            r.y + r.height == if self.spec_bottom() <= other.spec_bottom() {
                self.spec_bottom()
            } else {
                other.spec_bottom()
            },
    {
        let x1 = if self.x >= other.x { self.x } else { other.x };
        let y1 = if self.y >= other.y { self.y } else { other.y };
        let r1 = self.x + self.width;
        let r2 = other.x + other.width;
        let b1 = self.y + self.height;
        let b2 = other.y + other.height;
        let x2 = if r1 <= r2 { r1 } else { r2 };
        let y2 = if b1 <= b2 { b1 } else { b2 };
        Rect { x: x1, y: y1, width: x2 - x1, height: y2 - y1 }
    }

    pub fn intersects(&self, other: &Rect) -> (r: bool)
        requires
            self.spec_right() <= usize::MAX,
            other.spec_right() <= usize::MAX,
            self.spec_bottom() <= usize::MAX,
            other.spec_bottom() <= usize::MAX,
        ensures
            r == self.spec_intersects(*other),
    {
        self.x < other.x + other.width && self.x + self.width > other.x && self.y < other.y
            + other.height && self.y + self.height > other.y
    }
}

} // verus!
