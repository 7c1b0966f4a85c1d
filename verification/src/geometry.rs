//! Points, sizes and rectangles on the integer grid.
//!
//! The far edges of a rectangle saturate at the bounds of `i32`, so that no
//! client can make them overflow.

use crate::scalar::Scalar;
use vstd::prelude::*;

verus! {

/// A position in whole pixels.
#[derive(Clone, Copy, Debug, PartialEq, Eq, Default, Structural)]
pub struct Point {
    pub x: i32,
    pub y: i32,
}

/// A position in fractions of a pixel.
#[derive(Clone, Copy, Debug, PartialEq)]
pub struct PointF {
    pub x: Scalar,
    pub y: Scalar,
}

impl PointF {
    /// The point at which both coordinates are positive zero.
    pub open spec fn at_origin(self) -> bool {
        self.x.bits == 0 && self.y.bits == 0
    }

    pub fn origin() -> (p: PointF)
        ensures
            p.at_origin(),
    {
        PointF { x: Scalar::zero(), y: Scalar::zero() }
    }
}

/// A position in half pixels: both coordinates are doubled. The center of a
/// rectangle on the integer grid is always such a position.
#[derive(Clone, Copy, Debug, PartialEq, Eq, Structural)]
pub struct HalfPoint {
    pub x2: i64,
    pub y2: i64,
}

#[derive(Clone, Copy, Debug, PartialEq, Eq, Default, Structural)]
pub struct Size {
    pub w: i32,
    pub h: i32,
}

/// A rectangle given by its top-left corner and its size.
#[derive(Clone, Copy, Debug, PartialEq, Eq, Default, Structural)]
pub struct Rect {
    pub loc: Point,
    pub size: Size,
}

/// A number, moved into the range of `i32`.
pub open spec fn saturated(n: int) -> int {
    if n > i32::MAX {
        i32::MAX as int
    } else if n < i32::MIN {
        i32::MIN as int
    } else {
        n
    }
}

/// A number, moved into the range of `i32`.
pub fn saturating_i32(n: i64) -> (s: i32)
    ensures
        s == saturated(n as int),
{
    if n > i32::MAX as i64 {
        i32::MAX
    } else if n < i32::MIN as i64 {
        i32::MIN
    } else {
        n as i32
    }
}

/// `a + b`, saturating at the bounds of `i32`.
pub fn saturating_sum(a: i32, b: i32) -> (s: i32)
    ensures
        s == saturated(a + b),
{
    saturating_i32(a as i64 + b as i64)
}

/// `a - b`, saturating at the bounds of `i32`.
pub fn saturating_difference(a: i32, b: i32) -> (s: i32)
    ensures
        s == saturated(a - b),
{
    saturating_i32(a as i64 - b as i64)
}

pub open spec fn smaller(a: int, b: int) -> int {
    if a < b {
        a
    } else {
        b
    }
}

pub open spec fn larger(a: int, b: int) -> int {
    if a > b {
        a
    } else {
        b
    }
}

pub fn smaller_of(a: i32, b: i32) -> (m: i32)
    ensures
        m == smaller(a as int, b as int),
{
    if a < b {
        a
    } else {
        b
    }
}

pub fn larger_of(a: i32, b: i32) -> (m: i32)
    ensures
        m == larger(a as int, b as int),
{
    if a > b {
        a
    } else {
        b
    }
}

impl Rect {
    /// Where the rectangle ends on the right; this column is not part of it.
    pub open spec fn right(self) -> int {
        saturated(self.loc.x + self.size.w)
    }

    /// Where the rectangle ends at the bottom; this row is not part of it.
    pub open spec fn bottom(self) -> int {
        saturated(self.loc.y + self.size.h)
    }

    /// Whether the pixel at `(x, y)` is part of the rectangle.
    pub open spec fn covers(self, x: int, y: int) -> bool {
        self.loc.x <= x < self.right() && self.loc.y <= y < self.bottom()
    }

    /// Whether the rectangles reach into each other on both axes.
    pub open spec fn meets(self, other: Rect) -> bool {
        &&& self.loc.x < other.right()
        &&& other.loc.x < self.right()
        &&& self.loc.y < other.bottom()
        &&& other.loc.y < self.bottom()
    }

    fn right_edge(&self) -> (x: i32)
        ensures
            x == self.right(),
    {
        saturating_sum(self.loc.x, self.size.w)
    }

    fn bottom_edge(&self) -> (y: i32)
        ensures
            y == self.bottom(),
    {
        saturating_sum(self.loc.y, self.size.h)
    }

    /// Checks whether the given point is inside the rectangle.
    pub fn contains(&self, point: Point) -> (b: bool)
        ensures
            b == self.covers(point.x as int, point.y as int),
    {
        point.x >= self.loc.x && point.x < self.right_edge() && point.y >= self.loc.y && point.y
            < self.bottom_edge()
    }

    /// Checks whether a rectangle overlaps with this one; rectangles that only
    /// touch do not.
    pub fn overlaps(&self, other: &Rect) -> (b: bool)
        ensures
            b == self.meets(*other),
    {
        self.loc.x < other.right_edge() && other.loc.x < self.right_edge() && self.loc.y
            < other.bottom_edge() && other.loc.y < self.bottom_edge()
    }

    /// The rectangle between two opposite corners.
    pub open spec fn spanned(left: int, top: int, right: int, bottom: int) -> Rect {
        Rect {
            loc: Point { x: left as i32, y: top as i32 },
            size: Size { w: saturated(right - left) as i32, h: saturated(bottom - top) as i32 },
        }
    }

    /// The rectangle from its top-left to its bottom-right corner.
    pub fn from_extremities(topleft: Point, bottomright: Point) -> (r: Rect)
        ensures
            r == Self::spanned(
                topleft.x as int,
                topleft.y as int,
                bottomright.x as int,
                bottomright.y as int,
            ),
    {
        Rect {
            loc: topleft,
            size: Size {
                w: saturating_difference(bottomright.x, topleft.x),
                h: saturating_difference(bottomright.y, topleft.y),
            },
        }
    }

    /// The common part of two rectangles, spanned by the inner edges.
    pub open spec fn common(self, other: Rect) -> Rect {
        Self::spanned(
            larger(self.loc.x as int, other.loc.x as int),
            larger(self.loc.y as int, other.loc.y as int),
            smaller(self.right(), other.right()),
            smaller(self.bottom(), other.bottom()),
        )
    }

    /// The overlapping area of two rectangles, or `None` if they don't overlap.
    pub fn intersection(&self, other: &Rect) -> (r: Option<Rect>)
        ensures
            r == (if self.meets(*other) {
                Some(self.common(*other))
            } else {
                None
            }),
    {
        if !self.overlaps(other) {
            return None;
        }
        Some(
            Rect::from_extremities(
                Point {
                    x: larger_of(self.loc.x, other.loc.x),
                    y: larger_of(self.loc.y, other.loc.y),
                },
                Point {
                    x: smaller_of(self.right_edge(), other.right_edge()),
                    y: smaller_of(self.bottom_edge(), other.bottom_edge()),
                },
            ),
        )
    }

    /// The rectangle at the origin with the given size.
    pub fn from_size(size: Size) -> (r: Rect)
        ensures
            r == (Rect { loc: Point { x: 0, y: 0 }, size }),
    {
        Rect { loc: Point { x: 0, y: 0 }, size }
    }

    /// The center of the rectangle, in half pixels.
    pub open spec fn middle(self) -> HalfPoint {
        HalfPoint {
            x2: (2 * self.loc.x + self.size.w) as i64,
            y2: (2 * self.loc.y + self.size.h) as i64,
        }
    }

    /// The center of the rectangle.
    pub fn center(&self) -> (c: HalfPoint)
        ensures
            c == self.middle(),
    {
        HalfPoint {
            x2: 2 * self.loc.x as i64 + self.size.w as i64,
            y2: 2 * self.loc.y as i64 + self.size.h as i64,
        }
    }
}

/// The common part of two rectangles covers exactly the pixels that both cover,
/// wherever its size is not cut off at the bounds of `i32`.
pub proof fn lemma_common_covers_both(a: Rect, b: Rect, x: int, y: int)
    requires
        a.meets(b),
        a.common(b).size.w < i32::MAX,
        a.common(b).size.h < i32::MAX,
    ensures
        a.common(b).covers(x, y) <==> a.covers(x, y) && b.covers(x, y),
{
}

/// Rectangles that overlap, and are not empty, have a pixel in common.
pub proof fn lemma_meets_has_common_pixel(a: Rect, b: Rect)
    requires
        a.size.w > 0,
        a.size.h > 0,
        b.size.w > 0,
        b.size.h > 0,
        a.loc.x < a.right(),
        a.loc.y < a.bottom(),
        b.loc.x < b.right(),
        b.loc.y < b.bottom(),
    ensures
        a.meets(b) <==> exists|x: int, y: int| #[trigger] a.covers(x, y) && b.covers(x, y),
        a.meets(b) == b.meets(a),
{
    if a.meets(b) {
        let x = larger(a.loc.x as int, b.loc.x as int);
        let y = larger(a.loc.y as int, b.loc.y as int);
        assert(a.covers(x, y) && b.covers(x, y));
    }
}

/// Saturating moves a number no further than it must: the result is in range, a
/// number in range stays, and no number in range is nearer.
pub proof fn lemma_saturating_moves_least(n: int, m: int)
    ensures
        i32::MIN <= saturated(n) <= i32::MAX,
        i32::MIN <= n <= i32::MAX ==> saturated(n) == n,
        i32::MIN <= m <= i32::MAX && n <= m ==> n <= saturated(n) <= m || saturated(n) == n,
        i32::MIN <= m <= i32::MAX && m <= n ==> m <= saturated(n) <= n || saturated(n) == n,
{
}

/// The smaller and the larger of two numbers are these two numbers, in order.
pub proof fn lemma_smaller_and_larger(a: int, b: int)
    ensures
        smaller(a, b) <= larger(a, b),
        smaller(a, b) == a && larger(a, b) == b || smaller(a, b) == b && larger(a, b) == a,
{
}

/// A rectangle that ends in range covers the pixels from its corner on for its
/// width and its height; two such rectangles overlap when, on both axes, each
/// starts before the other ends.
pub proof fn lemma_rectangles_by_their_sides(a: Rect, b: Rect, x: int, y: int)
    requires
        a.loc.x + a.size.w <= i32::MAX,
        a.loc.y + a.size.h <= i32::MAX,
        b.loc.x + b.size.w <= i32::MAX,
        b.loc.y + b.size.h <= i32::MAX,
        i32::MIN <= x,
        i32::MIN <= y,
    ensures
        a.covers(x, y) <==> a.loc.x <= x && x < a.loc.x + a.size.w && a.loc.y <= y && y < a.loc.y
            + a.size.h,
        a.size.w > 0 && a.size.h > 0 && b.size.w > 0 && b.size.h > 0 ==> (a.meets(b) <==> a.loc.x
            < b.loc.x + b.size.w && b.loc.x < a.loc.x + a.size.w && a.loc.y < b.loc.y + b.size.h
            && b.loc.y < a.loc.y + a.size.h),
{
}

/// A rectangle spanned by two corners starts at the one and ends at the other.
pub proof fn lemma_spanned_by_corners(left: i32, top: i32, right: i32, bottom: i32)
    requires
        left <= right,
        top <= bottom,
        right - left <= i32::MAX,
        bottom - top <= i32::MAX,
    ensures
        ({
            let r = Rect::spanned(left as int, top as int, right as int, bottom as int);
            &&& r.loc.x == left
            &&& r.loc.y == top
            &&& r.loc.x + r.size.w == right
            &&& r.loc.y + r.size.h == bottom
        }),
{
}

/// The common part of two rectangles lies in both of them, and every rectangle
/// that lies in both lies in it.
pub proof fn lemma_common_is_the_largest_inside_both(a: Rect, b: Rect, c: Rect)
    requires
        a.meets(b),
        a.common(b).size.w < i32::MAX,
        a.common(b).size.h < i32::MAX,
    ensures
        a.loc.x <= a.common(b).loc.x && b.loc.x <= a.common(b).loc.x,
        a.loc.y <= a.common(b).loc.y && b.loc.y <= a.common(b).loc.y,
        a.common(b).loc.x + a.common(b).size.w <= a.loc.x + a.size.w,
        a.common(b).loc.x + a.common(b).size.w <= b.loc.x + b.size.w,
        a.common(b).loc.y + a.common(b).size.h <= a.loc.y + a.size.h,
        a.common(b).loc.y + a.common(b).size.h <= b.loc.y + b.size.h,
        a.loc.x <= c.loc.x && b.loc.x <= c.loc.x ==> a.common(b).loc.x <= c.loc.x,
        a.loc.y <= c.loc.y && b.loc.y <= c.loc.y ==> a.common(b).loc.y <= c.loc.y,
        c.loc.x + c.size.w <= i32::MAX && c.loc.x + c.size.w <= a.loc.x + a.size.w && c.loc.x
            + c.size.w <= b.loc.x + b.size.w ==> c.loc.x + c.size.w <= a.common(b).loc.x
            + a.common(b).size.w,
        c.loc.y + c.size.h <= i32::MAX && c.loc.y + c.size.h <= a.loc.y + a.size.h && c.loc.y
            + c.size.h <= b.loc.y + b.size.h ==> c.loc.y + c.size.h <= a.common(b).loc.y
            + a.common(b).size.h,
{
}

/// The center of a rectangle is as far from its left side as from its right one,
/// and as far from its top as from its bottom.
pub proof fn lemma_middle_is_between_the_sides(r: Rect)
    ensures
        r.middle().x2 - 2 * r.loc.x == 2 * (r.loc.x + r.size.w) - r.middle().x2,
        r.middle().y2 - 2 * r.loc.y == 2 * (r.loc.y + r.size.h) - r.middle().y2,
{
}

/// The origin is the one point with both coordinates zero.
pub proof fn lemma_origin_is_zero(a: PointF, b: PointF)
    ensures
        a.at_origin() ==> a.x.same_number(Scalar { bits: 0 }) && a.y.same_number(
            Scalar { bits: 0 },
        ),
        a.at_origin() && b.at_origin() ==> a == b,
{
}

} // verus!
