use vstd::prelude::*;

verus! {

/// Width of the dungeon, in tiles.
pub const SCREEN_WIDTH: i32 = 80;

/// Height of the dungeon, in tiles.
pub const SCREEN_HEIGHT: i32 = 50;

/// Width of the part of the dungeon shown on screen, in tiles: half of `SCREEN_WIDTH`.
pub const DISPLAY_WIDTH: i32 = 40;

/// Height of the part of the dungeon shown on screen, in tiles: half of `SCREEN_HEIGHT`.
pub const DISPLAY_HEIGHT: i32 = 25;

/// A position on the tile grid.
#[derive(Clone, Copy, Debug, PartialEq, Eq, Hash, Structural)]
pub struct Point {
    pub x: i32,
    pub y: i32,
}

/// Whether `v` fits in an `i32`.
pub open spec fn fits_i32(v: int) -> bool {
    i32::MIN <= v <= i32::MAX
}

/// Whether `v` lies between `a` and `b`, both included, whichever of them is the smaller.
pub open spec fn between(v: int, a: int, b: int) -> bool {
    if a <= b {
        a <= v <= b
    } else {
        b <= v <= a
    }
}

/// Rust's integer division by two, which rounds towards zero.
pub open spec fn half_toward_zero(v: int) -> int {
    if v >= 0 {
        v / 2
    } else {
        -((-v) / 2)
    }
}

/// The square of the straight-line distance between two points.
pub open spec fn distance_squared(a: Point, b: Point) -> int {
    (a.x - b.x) * (a.x - b.x) + (a.y - b.y) * (a.y - b.y)
}

impl Point {
    pub fn new(x: i32, y: i32) -> (r: Point)
        ensures
            r.x == x,
            r.y == y,
    {
        Point { x, y }
    }

    pub fn zero() -> (r: Point)
        ensures
            r.x == 0,
            r.y == 0,
    {
        Point { x: 0, y: 0 }
    }

    /// The point moved by `delta`.
    pub fn offset_by(&self, delta: Point) -> (r: Point)
        requires
            fits_i32(self.x + delta.x),
            fits_i32(self.y + delta.y),
        ensures
            r.x == self.x + delta.x,
            r.y == self.y + delta.y,
    {
        Point { x: self.x + delta.x, y: self.y + delta.y }
    }

    /// The point seen from `origin`: its coordinates minus those of `origin`.
    pub fn relative_to(&self, origin: Point) -> (r: Point)
        requires
            fits_i32(self.x - origin.x),
            fits_i32(self.y - origin.y),
        ensures
            r.x == self.x - origin.x,
            r.y == self.y - origin.y,
    {
        Point { x: self.x - origin.x, y: self.y - origin.y }
    }

    /// Both coordinates multiplied by `k`.
    pub fn scaled(&self, k: i32) -> (r: Point)
        requires
            fits_i32(self.x * k),
            fits_i32(self.y * k),
        ensures
            r.x == self.x * k,
            r.y == self.y * k,
    {
        Point { x: self.x * k, y: self.y * k }
    }
}

/// The squared distance between two points, computed without overflow.
pub fn distance_squared_exec(a: Point, b: Point) -> (r: i128)
    ensures
        r == distance_squared(a, b),
{
    let dx: i128 = a.x as i128 - b.x as i128;
    let dy: i128 = a.y as i128 - b.y as i128;
    assert(dx * dx <= 0x1_0000_0000_0000_0000) by (nonlinear_arith)
        requires
            -0x1_0000_0000 <= dx <= 0x1_0000_0000,
    ;
    assert(dy * dy <= 0x1_0000_0000_0000_0000) by (nonlinear_arith)
        requires
            -0x1_0000_0000 <= dy <= 0x1_0000_0000,
    ;
    assert(0 <= dx * dx) by (nonlinear_arith);
    assert(0 <= dy * dy) by (nonlinear_arith);
    dx * dx + dy * dy
}

/// An axis-aligned rectangle. Its points are those with `x1 <= x < x2` and `y1 <= y < y2`.
#[derive(Clone, Copy, Debug, PartialEq, Eq, Structural)]
pub struct Rect {
    pub x1: i32,
    pub x2: i32,
    pub y1: i32,
    pub y2: i32,
}

impl Rect {
    /// Whether the two rectangles touch or overlap, their far edges included.
    pub open spec fn intersects(self, other: Rect) -> bool {
        self.x1 <= other.x2 && self.x2 >= other.x1 && self.y1 <= other.y2 && self.y2 >= other.y1
    }

    /// Whether the point `(x, y)` lies in the rectangle.
    pub open spec fn contains_xy(self, x: int, y: int) -> bool {
        self.x1 <= x < self.x2 && self.y1 <= y < self.y2
    }

    pub open spec fn center_spec(self) -> Point {
        Point {
            x: half_toward_zero(self.x1 + self.x2) as i32,
            y: half_toward_zero(self.y1 + self.y2) as i32,
        }
    }

    /// The rectangle whose top-left corner is `(x, y)`, `w` wide and `h` high.
    pub fn with_size(x: i32, y: i32, w: i32, h: i32) -> (r: Rect)
        requires
            fits_i32(x + w),
            fits_i32(y + h),
        ensures
            r.x1 == x,
            r.y1 == y,
            r.x2 == x + w,
            r.y2 == y + h,
    {
        Rect { x1: x, y1: y, x2: x + w, y2: y + h }
    }

    pub fn intersect(&self, other: &Rect) -> (r: bool)
        ensures
            r == self.intersects(*other),
    {
        self.x1 <= other.x2 && self.x2 >= other.x1 && self.y1 <= other.y2 && self.y2 >= other.y1
    }

    pub fn point_in_rect(&self, point: Point) -> (r: bool)
        ensures
            r == self.contains_xy(point.x as int, point.y as int),
    {
        point.x >= self.x1 && point.x < self.x2 && point.y >= self.y1 && point.y < self.y2
    }

    /// The middle of the rectangle, halves rounded towards zero.
    pub fn center(&self) -> (r: Point)
        requires
            fits_i32(self.x1 + self.x2),
            fits_i32(self.y1 + self.y2),
        ensures
            r == self.center_spec(),
    {
        let sx: i64 = self.x1 as i64 + self.x2 as i64;
        let sy: i64 = self.y1 as i64 + self.y2 as i64;
        let cx: i64 = if sx >= 0 { sx / 2 } else { -((-sx) / 2) };
        let cy: i64 = if sy >= 0 { sy / 2 } else { -((-sy) / 2) };
        Point { x: cx as i32, y: cy as i32 }
    }
}

/// Two rectangles that do not intersect share no point.
pub proof fn law_disjoint_when_not_intersecting(a: Rect, b: Rect, x: int, y: int)
    requires
        !a.intersects(b),
    ensures
        !(a.contains_xy(x, y) && b.contains_xy(x, y)),
{
}

/// Intersection does not depend on the order of the two rectangles.
pub proof fn law_intersects_symmetric(a: Rect, b: Rect)
    ensures
        a.intersects(b) == b.intersects(a),
{
}

} // verus!
