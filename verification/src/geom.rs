//! Integer geometry for the compositor: points, sizes and axis-aligned
//! rectangles with a half-open convention (`x1`, `y1` excluded).
//!
//! Signed coordinates let shapes go off-screen; the off-screen parts are
//! simply never drawn.

use vstd::prelude::*;

verus! {

/// A point on (or off) the screen.
#[derive(Debug, Copy, Clone, Eq, PartialEq, Structural)]
pub struct Point {
    pub x: i16,
    pub y: i16,
}

impl Point {
    pub fn origin() -> (p: Point)
        ensures
            p.x == 0 && p.y == 0,
    {
        Point { x: 0, y: 0 }
    }

    pub fn new(x: i16, y: i16) -> (p: Point)
        ensures
            p.x == x && p.y == y,
    {
        Point { x, y }
    }
}

/// A width and height in pixels.
#[derive(Debug, Copy, Clone, Eq, PartialEq, Structural)]
pub struct Size {
    pub width: u16,
    pub height: u16,
}

impl Size {
    pub fn new(width: u16, height: u16) -> (s: Size)
        ensures
            s.width == width && s.height == height,
    {
        Size { width, height }
    }
}

/// An axis-aligned rectangle, top-left `(x0, y0)` included, bottom-right
/// `(x1, y1)` excluded.
#[derive(Debug, Copy, Clone, Eq, PartialEq, Structural)]
pub struct Rect {
    pub x0: i16,
    pub y0: i16,
    pub x1: i16,
    pub y1: i16,
}

/// Whether a point lies inside a rectangle (half-open on the high edges).
pub open spec fn spec_hit(r: Rect, px: int, py: int) -> bool {
    r.x0 <= px < r.x1 && r.y0 <= py < r.y1
}

/// A rectangle with no area: zero width or zero height.
pub open spec fn spec_is_empty(r: Rect) -> bool {
    r.x0 == r.x1 || r.y0 == r.y1
}

/// The constructor's invariant: edges in order.
pub open spec fn spec_ordered(r: Rect) -> bool {
    r.x0 <= r.x1 && r.y0 <= r.y1
}

/// One smallest rectangle containing the area of both arguments; an empty
/// argument contributes nothing (the other argument comes back unchanged).
pub open spec fn spec_union(a: Rect, b: Rect) -> Rect {
    if spec_is_empty(a) {
        b
    } else if spec_is_empty(b) {
        a
    } else {
        Rect {
            x0: if a.x0 <= b.x0 {
                a.x0
            } else {
                b.x0
            },
            y0: if a.y0 <= b.y0 {
                a.y0
            } else {
                b.y0
            },
            x1: if a.x1 >= b.x1 {
                a.x1
            } else {
                b.x1
            },
            y1: if a.y1 >= b.y1 {
                a.y1
            } else {
                b.y1
            },
        }
    }
}

/// The rectangle of points common to both arguments; empty (edges out of
/// order) when they are disjoint.
pub open spec fn spec_intersect(a: Rect, b: Rect) -> Rect {
    Rect {
        x0: if a.x0 >= b.x0 {
            a.x0
        } else {
            b.x0
        },
        y0: if a.y0 >= b.y0 {
            a.y0
        } else {
            b.y0
        },
        x1: if a.x1 <= b.x1 {
            a.x1
        } else {
            b.x1
        },
        y1: if a.y1 <= b.y1 {
            a.y1
        } else {
            b.y1
        },
    }
}

impl Rect {
    /// The canonical empty rectangle and the identity element of `union`.
    pub fn zero() -> (r: Rect)
        ensures
            r == (Rect { x0: 0, y0: 0, x1: 0, y1: 0 }),
    {
        Rect { x0: 0, y0: 0, x1: 0, y1: 0 }
    }

    /// Create a rectangle, rejecting edges out of order.
    pub fn new(x0: i16, y0: i16, x1: i16, y1: i16) -> (r: Option<Self>)
        ensures
            r is Some <==> x0 <= x1 && y0 <= y1,
            r matches Some(rect) ==> rect == (Rect { x0, y0, x1, y1 }),
    {
        if x0 > x1 || y0 > y1 {
            None
        } else {
            Some(Self { x0, y0, x1, y1 })
        }
    }

    /// Create a rectangle whose edges the caller has already checked to be
    /// in order; the rest of the code assumes it.
    pub fn new_unchecked(x0: i16, y0: i16, x1: i16, y1: i16) -> (r: Self)
        requires
            x0 <= x1,
            y0 <= y1,
        ensures
            r == (Rect { x0, y0, x1, y1 }),
    {
        Self { x0, y0, x1, y1 }
    }

    pub fn x0(self) -> (v: i16)
        ensures
            v == self.x0,
    {
        self.x0
    }

    pub fn y0(self) -> (v: i16)
        ensures
            v == self.y0,
    {
        self.y0
    }

    pub fn x1(self) -> (v: i16)
        ensures
            v == self.x1,
    {
        self.x1
    }

    pub fn y1(self) -> (v: i16)
        ensures
            v == self.y1,
    {
        self.y1
    }

    pub fn top_left(self) -> (p: Point)
        ensures
            p == (Point { x: self.x0, y: self.y0 }),
    {
        Point { x: self.x0, y: self.y0 }
    }

    pub fn bottom_right(self) -> (p: Point)
        ensures
            p == (Point { x: self.x1, y: self.y1 }),
    {
        Point { x: self.x1, y: self.y1 }
    }

    /// The same size at a new top-left corner.
    pub fn with_origin(self, origin: Point) -> (r: Self)
        requires
            spec_ordered(self),
            origin.x + (self.x1 - self.x0) <= i16::MAX,
            origin.y + (self.y1 - self.y0) <= i16::MAX,
        ensures
            r == (Rect {
                x0: origin.x,
                y0: origin.y,
                x1: (origin.x + (self.x1 - self.x0)) as i16,
                y1: (origin.y + (self.y1 - self.y0)) as i16,
            }),
    {
        Rect::from_origin_size(origin, self.size())
    }

    /// The same top-left corner with a new size.
    pub fn with_size(self, size: Size) -> (r: Self)
        requires
            self.x0 + size.width <= i16::MAX,
            self.y0 + size.height <= i16::MAX,
        ensures
            r == (Rect {
                x0: self.x0,
                y0: self.y0,
                x1: (self.x0 + size.width) as i16,
                y1: (self.y0 + size.height) as i16,
            }),
    {
        Rect::from_origin_size(self.top_left(), size)
    }

    /// The rectangle of the given size whose top-left corner is `origin`.
    pub fn from_origin_size(origin: Point, size: Size) -> (r: Self)
        requires
            origin.x + size.width <= i16::MAX,
            origin.y + size.height <= i16::MAX,
        ensures
            r == (Rect {
                x0: origin.x,
                y0: origin.y,
                x1: (origin.x + size.width) as i16,
                y1: (origin.y + size.height) as i16,
            }),
            spec_ordered(r),
    {
        Self {
            x0: origin.x,
            y0: origin.y,
            x1: (size.width as i32 + origin.x as i32) as i16,
            y1: (size.height as i32 + origin.y as i32) as i16,
        }
    }

    pub fn size(self) -> (s: Size)
        requires
            spec_ordered(self),
        ensures
            s.width == self.x1 - self.x0,
            s.height == self.y1 - self.y0,
    {
        Size {
            width: ((self.x1 as i32) - (self.x0 as i32)) as u16,
            height: ((self.y1 as i32) - (self.y0 as i32)) as u16,
        }
    }

    /// Width times height in pixels.
    pub fn area(self) -> (a: u16)
        requires
            spec_ordered(self),
            (self.x1 - self.x0) * (self.y1 - self.y0) <= u16::MAX,
        ensures
            a == (self.x1 - self.x0) * (self.y1 - self.y0),
    {
        let s = self.size();
        proof {
            assert(s.width * s.height <= u16::MAX);
        }
        s.width * s.height
    }

    pub fn bounding_box(self) -> (r: Rect)
        ensures
            r == self,
    {
        self
    }

    /// Whether the point lies inside the rectangle.
    pub fn hit_test(&self, point: Point) -> (b: bool)
        ensures
            b == spec_hit(*self, point.x as int, point.y as int),
    {
        self.x0 <= point.x && point.x < self.x1 && self.y0 <= point.y && point.y < self.y1
    }

    pub fn is_empty(&self) -> (b: bool)
        ensures
            b == spec_is_empty(*self),
    {
        self.x0 == self.x1 || self.y0 == self.y1
    }

    /// One of the smallest rectangles containing the area of both arguments.
    pub fn union(self, other: Self) -> (r: Self)
        ensures
            r == spec_union(self, other),
    {
        if self.is_empty() {
            other
        } else if other.is_empty() {
            self
        } else {
            Self {
                x0: if self.x0 <= other.x0 {
                    self.x0
                } else {
                    other.x0
                },
                y0: if self.y0 <= other.y0 {
                    self.y0
                } else {
                    other.y0
                },
                x1: if self.x1 >= other.x1 {
                    self.x1
                } else {
                    other.x1
                },
                y1: if self.y1 >= other.y1 {
                    self.y1
                } else {
                    other.y1
                },
            }
        }
    }

    /// The rectangle of points common to both arguments.
    pub fn intersect(self, other: Self) -> (r: Self)
        ensures
            r == spec_intersect(self, other),
    {
        Self {
            x0: if self.x0 >= other.x0 {
                self.x0
            } else {
                other.x0
            },
            y0: if self.y0 >= other.y0 {
                self.y0
            } else {
                other.y0
            },
            x1: if self.x1 <= other.x1 {
                self.x1
            } else {
                other.x1
            },
            y1: if self.y1 <= other.y1 {
                self.y1
            } else {
                other.y1
            },
        }
    }
}

/// `union` of non-empty rectangles is commutative.
pub proof fn lemma_union_commutative(a: Rect, b: Rect)
    requires
        !spec_is_empty(a),
        !spec_is_empty(b),
    ensures
        spec_union(a, b) == spec_union(b, a),
{
}

/// `union` of ordered, non-empty rectangles is associative.
pub proof fn lemma_union_associative(a: Rect, b: Rect, c: Rect)
    requires
        spec_ordered(a) && !spec_is_empty(a),
        spec_ordered(b) && !spec_is_empty(b),
        spec_ordered(c) && !spec_is_empty(c),
    ensures
        spec_union(spec_union(a, b), c) == spec_union(a, spec_union(b, c)),
{
}

/// The zero rectangle is a left identity of `union` for every rectangle, and
/// a right identity for every non-empty one. (An empty but non-zero
/// rectangle is collapsed to its non-empty partner: it has no area to keep.)
pub proof fn lemma_union_zero_identity(r: Rect)
    ensures
        spec_union(Rect { x0: 0, y0: 0, x1: 0, y1: 0 }, r) == r,
        !spec_is_empty(r) ==> spec_union(r, Rect { x0: 0, y0: 0, x1: 0, y1: 0 }) == r,
{
}

/// `union` is idempotent.
pub proof fn lemma_union_idempotent(r: Rect)
    ensures
        spec_union(r, r) == r,
{
}

/// The union contains every point of both arguments.
pub proof fn lemma_union_contains(a: Rect, b: Rect, px: int, py: int)
    requires
        spec_hit(a, px, py) || spec_hit(b, px, py),
    ensures
        spec_hit(spec_union(a, b), px, py),
{
}

/// For ordered rectangles, the intersection is empty exactly when the two
/// share no point, and a common point is a point of the intersection.
pub proof fn lemma_intersect_disjoint(a: Rect, b: Rect)
    requires
        spec_ordered(a),
        spec_ordered(b),
    ensures
        spec_is_empty(spec_intersect(a, b)) || !spec_ordered(spec_intersect(a, b)) <==> !(
        exists|px: int, py: int| spec_hit(a, px, py) && spec_hit(b, px, py)),
        forall|px: int, py: int|
            #![trigger spec_hit(a, px, py), spec_hit(b, px, py)]
            spec_hit(a, px, py) && spec_hit(b, px, py) <==> spec_hit(
                spec_intersect(a, b),
                px,
                py,
            ),
{
    let r = spec_intersect(a, b);
    if !(spec_is_empty(r) || !spec_ordered(r)) {
        assert(spec_hit(a, r.x0 as int, r.y0 as int) && spec_hit(b, r.x0 as int, r.y0 as int));
    }
}

} // verus!
