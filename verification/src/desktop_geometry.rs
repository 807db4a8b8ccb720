use vstd::prelude::*;

verus! {

/// An axis-aligned rectangle in global desktop pixels. The left and top
/// edges are inclusive, the right and bottom edges exclusive.
#[derive(Debug, Clone, Copy, PartialEq, Eq, Structural)]
pub struct DesktopRect {
    pub x: i32,
    pub y: i32,
    pub width: i32,
    pub height: i32,
}

impl DesktopRect {
    /// The right edge as a mathematical integer.
    pub open spec fn spec_right(self) -> int {
        self.x + self.width
    }

    /// The bottom edge as a mathematical integer.
    pub open spec fn spec_bottom(self) -> int {
        self.y + self.height
    }

    /// Both far edges are representable as `i32`.
    pub open spec fn edges_in_range(self) -> bool {
        &&& i32::MIN <= self.spec_right() <= i32::MAX
        &&& i32::MIN <= self.spec_bottom() <= i32::MAX
    }

    /// The pixel `p` lies inside the rectangle.
    pub open spec fn has_point(self, p: (int, int)) -> bool {
        &&& self.x <= p.0 < self.spec_right()
        &&& self.y <= p.1 < self.spec_bottom()
    }

    /// The half-open extents of the two rectangles overlap on both axes.
    pub open spec fn spec_intersects(self, other: Self) -> bool {
        &&& self.x < other.spec_right()
        &&& self.spec_right() > other.x
        &&& self.y < other.spec_bottom()
        &&& self.spec_bottom() > other.y
    }

    pub fn from_origin_size(origin: (i32, i32), size: (i32, i32)) -> (r: Self)
        ensures
            r.x == origin.0,
            r.y == origin.1,
            r.width == if size.0 >= 0 { size.0 } else { 0 },
            r.height == if size.1 >= 0 { size.1 } else { 0 },
    {
        Self {
            x: origin.0,
            y: origin.1,
            width: if size.0 >= 0 { size.0 } else { 0 },
            height: if size.1 >= 0 { size.1 } else { 0 },
        }
    }

    pub fn right(self) -> (r: i32)
        requires
            i32::MIN <= self.spec_right() <= i32::MAX,
        ensures
            r == self.spec_right(),
    {
        self.x + self.width
    }

    pub fn bottom(self) -> (r: i32)
        requires
            i32::MIN <= self.spec_bottom() <= i32::MAX,
        ensures
            r == self.spec_bottom(),
    {
        self.y + self.height
    }

    pub fn contains_point(self, point: (i32, i32)) -> (r: bool)
        requires
            self.edges_in_range(),
        ensures
            r == self.has_point((point.0 as int, point.1 as int)),
    {
        point.0 >= self.x && point.0 < self.right() && point.1 >= self.y && point.1 < self.bottom()
    }

    pub fn intersects(self, other: Self) -> (r: bool)
        requires
            self.edges_in_range(),
            other.edges_in_range(),
        ensures
            r == self.spec_intersects(other),
    {
        self.x < other.right() && self.right() > other.x && self.y < other.bottom()
            && self.bottom() > other.y
    }
}

/// Intersection does not depend on the order of its arguments.
pub proof fn lemma_intersects_symmetric(a: DesktopRect, b: DesktopRect)
    ensures
        a.spec_intersects(b) == b.spec_intersects(a),
{
}

/// Two rectangles with positive width and height intersect exactly when some
/// pixel lies inside both of them.
pub proof fn lemma_intersects_iff_common_pixel(a: DesktopRect, b: DesktopRect)
    requires
        a.width > 0,
        a.height > 0,
        b.width > 0,
        b.height > 0,
    ensures
        a.spec_intersects(b) <==> exists|p: (int, int)| a.has_point(p) && b.has_point(p),
{
    if a.spec_intersects(b) {
        let px = if a.x >= b.x { a.x as int } else { b.x as int };
        let py = if a.y >= b.y { a.y as int } else { b.y as int };
        assert(a.has_point((px, py)) && b.has_point((px, py)));
    }
}

/// Rectangles that share a vertical edge (the right edge of `left` is the
/// left edge of `right`) own disjoint sets of pixels: no pixel lies in both.
pub proof fn lemma_adjacent_rects_share_no_pixel(left: DesktopRect, right: DesktopRect, p: (int, int))
    requires
        left.spec_right() == right.x,
    ensures
        !(left.has_point(p) && right.has_point(p)),
{
}

} // verus!
