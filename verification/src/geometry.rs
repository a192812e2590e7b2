//! Points and rectangles in workspace coordinates.

use vstd::prelude::*;

verus! {

/// `v` held inside the range of `i32`.
pub open spec fn saturated(v: int) -> int {
    if v < i32::MIN {
        i32::MIN as int
    } else if v > i32::MAX {
        i32::MAX as int
    } else {
        v
    }
}

/// An unsigned length read as a signed 32-bit number: lengths of `2^31` and more
/// come out negative.
pub open spec fn as_signed(len: u32) -> int {
    if len <= i32::MAX {
        len as int
    } else {
        len - 0x1_0000_0000
    }
}

pub open spec fn min_int(a: int, b: int) -> int {
    if a <= b {
        a
    } else {
        b
    }
}

pub open spec fn max_int(a: int, b: int) -> int {
    if a >= b {
        a
    } else {
        b
    }
}

/// `v` held between `lo` and `hi`.
pub open spec fn between(v: int, lo: int, hi: int) -> int {
    if v < lo {
        lo
    } else if v > hi {
        hi
    } else {
        v
    }
}

/// The 32-bit number nearest to `v`.
pub fn saturate(v: i64) -> (r: i32)
    ensures
        r == saturated(v as int),
{
    if v < i32::MIN as i64 {
        i32::MIN
    } else if v > i32::MAX as i64 {
        i32::MAX
    } else {
        v as i32
    }
}

/// Reads an unsigned length as a signed number, as `as_signed` has it.
fn signed(len: u32) -> (r: i64)
    ensures
        r == as_signed(len),
{
    if len <= i32::MAX as u32 {
        len as i64
    } else {
        len as i64 - 0x1_0000_0000
    }
}

/// A point in workspace coordinates.
#[derive(Clone, Copy, Debug, PartialEq, Eq, Structural)]
pub struct Point {
    pub x: i32,
    pub y: i32,
}

impl Default for Point {
    fn default() -> (r: Self)
        ensures
            r == (Point { x: 0, y: 0 }),
    {
        Point { x: 0, y: 0 }
    }
}

impl Point {
    pub fn new(x: i32, y: i32) -> (r: Self)
        ensures
            r == (Point { x, y }),
    {
        Self { x, y }
    }
}

/// An axis-aligned rectangle in workspace coordinates.
#[derive(Clone, Copy, Debug, PartialEq, Eq, Structural)]
pub struct Rect {
    pub x: i32,
    pub y: i32,
    pub width: u32,
    pub height: u32,
}

impl Rect {
    /// The first column to the right of the rectangle.
    pub open spec fn right(self) -> int {
        saturated(self.x + as_signed(self.width))
    }

    /// The first row below the rectangle.
    pub open spec fn bottom(self) -> int {
        saturated(self.y + as_signed(self.height))
    }

    /// The pixels that the rectangle covers.
    pub open spec fn covers(self, p: Point) -> bool {
        self.x <= p.x < self.right() && self.y <= p.y < self.bottom()
    }

    /// Whether the rectangle covers any pixel at all.
    pub open spec fn has_area(self) -> bool {
        self.x < self.right() && self.y < self.bottom()
    }

    /// The point of the rectangle nearest to `p`; its origin where it covers
    /// nothing.
    pub open spec fn clamped(self, p: Point) -> Point {
        Point {
            x: between(p.x as int, self.x as int, max_int(self.right() - 1, self.x as int)) as i32,
            y: between(p.y as int, self.y as int, max_int(self.bottom() - 1, self.y as int)) as i32,
        }
    }

    pub open spec fn translated(self, by: Point) -> Rect {
        Rect {
            x: saturated(self.x + by.x) as i32,
            y: saturated(self.y + by.y) as i32,
            width: self.width,
            height: self.height,
        }
    }

    /// The bounding box of two rectangles.
    pub open spec fn joined(self, other: Rect) -> Rect {
        let x = min_int(self.x as int, other.x as int);
        let y = min_int(self.y as int, other.y as int);
        Rect {
            x: x as i32,
            y: y as i32,
            width: max_int(max_int(self.right(), other.right()) - x, 0) as u32,
            height: max_int(max_int(self.bottom(), other.bottom()) - y, 0) as u32,
        }
    }

    pub fn new(x: i32, y: i32, width: u32, height: u32) -> (r: Self)
        ensures
            r == (Rect { x, y, width, height }),
    {
        Self { x, y, width, height }
    }

    pub fn max_x(&self) -> (r: i32)
        ensures
            r == self.right(),
    {
        saturate(self.x as i64 + signed(self.width))
    }

    pub fn max_y(&self) -> (r: i32)
        ensures
            r == self.bottom(),
    {
        saturate(self.y as i64 + signed(self.height))
    }

    /// Half-open on the far edges, so two adjacent rectangles never both claim
    /// the same pixel column.
    pub fn contains(&self, p: Point) -> (r: bool)
        ensures
            r == self.covers(p),
    {
        p.x >= self.x && p.x < self.max_x() && p.y >= self.y && p.y < self.max_y()
    }

    /// Nearest point inside the rectangle. A degenerate rectangle clamps to its
    /// origin.
    pub fn clamp(&self, p: Point) -> (r: Point)
        ensures
            r == self.clamped(p),
    {
        Point {
            x: clamp_axis(p.x, self.x, self.max_x()),
            y: clamp_axis(p.y, self.y, self.max_y()),
        }
    }

    pub fn translate(self, by: Point) -> (r: Rect)
        ensures
            r == self.translated(by),
    {
        Rect {
            x: saturate(self.x as i64 + by.x as i64),
            y: saturate(self.y as i64 + by.y as i64),
            width: self.width,
            height: self.height,
        }
    }

    /// The bounding box of the two. Its extent is computed without overflow.
    pub fn union(self, other: Rect) -> (r: Rect)
        ensures
            r == self.joined(other),
    {
        let x: i32 = if self.x <= other.x { self.x } else { other.x };
        let y: i32 = if self.y <= other.y { self.y } else { other.y };
        let max_x: i32 = if self.max_x() >= other.max_x() { self.max_x() } else { other.max_x() };
        let max_y: i32 = if self.max_y() >= other.max_y() { self.max_y() } else { other.max_y() };
        let width: i64 = max_x as i64 - x as i64;
        let height: i64 = max_y as i64 - y as i64;
        Rect {
            x,
            y,
            width: if width > 0 { width as u32 } else { 0 },
            height: if height > 0 { height as u32 } else { 0 },
        }
    }
}

/// `v` held inside the half-open span from `lo` to `end`, or at `lo` where the
/// span is empty.
fn clamp_axis(v: i32, lo: i32, end: i32) -> (r: i32)
    ensures
        r == between(v as int, lo as int, max_int(end - 1, lo as int)),
{
    let hi: i32 = if end > lo { end - 1 } else { lo };
    if v < lo {
        lo
    } else if v > hi {
        hi
    } else {
        v
    }
}

/// A point clamped to a rectangle with any area lands inside it.
pub proof fn clamp_lands_inside(r: Rect, p: Point)
    requires
        r.has_area(),
    ensures
        r.covers(r.clamped(p)),
{
}

/// Clamping leaves a point that is inside already where it is.
pub proof fn clamp_keeps_inside_points(r: Rect, p: Point)
    requires
        r.covers(p),
    ensures
        r.clamped(p) == p,
{
}

/// Clamping twice is clamping once, on every rectangle.
pub proof fn clamp_is_idempotent(r: Rect, p: Point)
    ensures
        r.clamped(r.clamped(p)) == r.clamped(p),
{
}

/// Two rectangles side by side, the second starting in the column where the
/// first ends, claim no pixel together.
pub proof fn neighbours_share_no_column(left: Rect, right: Rect, p: Point)
    requires
        left.right() <= right.x,
    ensures
        !(left.covers(p) && right.covers(p)),
{
}

/// Two rectangles on top of each other claim no pixel together.
pub proof fn neighbours_share_no_row(upper: Rect, lower: Rect, p: Point)
    requires
        upper.bottom() <= lower.y,
    ensures
        !(upper.covers(p) && lower.covers(p)),
{
}

/// The bounding box covers whatever either rectangle covers, as long as its
/// extent is one that a signed 32-bit number can hold.
pub proof fn union_covers_both(a: Rect, b: Rect, p: Point)
    requires
        a.covers(p) || b.covers(p),
        max_int(a.right(), b.right()) - min_int(a.x as int, b.x as int) <= i32::MAX,
        max_int(a.bottom(), b.bottom()) - min_int(a.y as int, b.y as int) <= i32::MAX,
    ensures
        a.joined(b).covers(p),
{
}

/// It does not matter which of the two rectangles comes first.
pub proof fn union_is_commutative(a: Rect, b: Rect)
    ensures
        a.joined(b) == b.joined(a),
{
}

/// A rectangle covers the pixels of its width and height from its origin on, and no
/// others, as long as its far edges can be told.
pub proof fn a_rectangle_covers_its_own_pixels(r: Rect, p: Point)
    requires
        r.width <= i32::MAX,
        r.height <= i32::MAX,
        r.x + r.width <= i32::MAX,
        r.y + r.height <= i32::MAX,
    ensures
        r.covers(p) <==> 0 <= p.x - r.x < r.width && 0 <= p.y - r.y < r.height,
{
}

/// Clamping goes to the nearest point: no other point of the rectangle is nearer,
/// along either axis.
pub proof fn clamp_goes_to_the_nearest_point(r: Rect, p: Point, q: Point)
    requires
        r.covers(q),
    ensures
        p.x <= r.clamped(p).x <= q.x || q.x <= r.clamped(p).x <= p.x,
        p.y <= r.clamped(p).y <= q.y || q.y <= r.clamped(p).y <= p.y,
{
}

/// Moving a rectangle moves every pixel of it, and none appears or goes.
pub proof fn translation_moves_every_pixel(r: Rect, by: Point, p: Point, q: Point)
    requires
        q.x == p.x + by.x,
        q.y == p.y + by.y,
        i32::MIN <= r.x + by.x,
        i32::MIN <= r.y + by.y,
        r.width <= i32::MAX,
        r.height <= i32::MAX,
        r.x + r.width <= i32::MAX,
        r.y + r.height <= i32::MAX,
        r.x + by.x + r.width <= i32::MAX,
        r.y + by.y + r.height <= i32::MAX,
    ensures
        r.translated(by).covers(q) <==> r.covers(p),
{
}

/// The bounding box is as small as it can be: each of its edges is an edge of one of
/// the two rectangles, and none of theirs lies beyond it.
pub proof fn union_is_tight(a: Rect, b: Rect)
    requires
        a.has_area(),
        b.has_area(),
        a.right() - b.x <= i32::MAX,
        b.right() - a.x <= i32::MAX,
        a.right() - a.x <= i32::MAX,
        b.right() - b.x <= i32::MAX,
        a.bottom() - b.y <= i32::MAX,
        b.bottom() - a.y <= i32::MAX,
        a.bottom() - a.y <= i32::MAX,
        b.bottom() - b.y <= i32::MAX,
    ensures
        ({
            let u = a.joined(b);
            &&& u.x <= a.x && u.x <= b.x && (u.x == a.x || u.x == b.x)
            &&& u.y <= a.y && u.y <= b.y && (u.y == a.y || u.y == b.y)
            &&& u.right() >= a.right() && u.right() >= b.right()
            &&& u.right() == a.right() || u.right() == b.right()
            &&& u.bottom() >= a.bottom() && u.bottom() >= b.bottom()
            &&& u.bottom() == a.bottom() || u.bottom() == b.bottom()
        }),
{
}

} // verus!
