//! Trigger geometry: rectangles, line segments, and zone-crossing tests.
//!
//! A [`Zone`] is a region that fires when a moving sprite crosses it. The
//! crossing semantics are pinned down exactly:
//! - a `Rect` zone is *entered* when the sprite's bounding box does not
//!   overlap the zone at the start of the movement but does at the end, so a
//!   sprite staying inside across both endpoints does not re-trigger;
//! - a `Line` zone is *crossed* when the segment swept by the sprite's center
//!   point intersects the zone's segment, by the standard orientation test
//!   with its collinear-overlap cases, boundary contact included.

use vstd::prelude::*;

verus! {

/// An axis-aligned rectangle: top-left corner, width and height. The occupied
/// region is the half-open box `[x, x + w) x [y, y + h)`.
#[derive(Clone, Copy, PartialEq, Eq, Debug)]
pub struct Rect {
    pub x: i32,
    pub y: i32,
    pub w: u32,
    pub h: u32,
}

/// A line segment between two points.
#[derive(Clone, Copy, PartialEq, Eq, Debug)]
pub struct Line(pub (u32, u32), pub (u32, u32));

/// A trigger region: a rectangle entered by a sprite's bounding box, or a line
/// crossed by its center's swept path.
#[derive(Clone, Copy, PartialEq, Eq, Debug)]
pub enum Zone {
    Rect(Rect),
    Line(Line),
}

/// Whether two half-open rectangles share a point.
pub open spec fn rects_overlap(a: Rect, b: Rect) -> bool {
    &&& a.x < b.x + b.w
    &&& b.x < a.x + a.w
    &&& a.y < b.y + b.h
    &&& b.y < a.y + a.h
}

/// The center point of a rectangle (integer division rounds down).
pub open spec fn rect_center(r: Rect) -> (int, int) {
    (r.x + r.w / 2, r.y + r.h / 2)
}

/// Twice the signed area of the triangle `a b c`: positive when `c` lies to
/// the left of the directed line `a -> b`, zero when collinear.
pub open spec fn orient(a: (int, int), b: (int, int), c: (int, int)) -> int {
    (b.0 - a.0) * (c.1 - a.1) - (b.1 - a.1) * (c.0 - a.0)
}

/// Whether `p`, known collinear with `a b`, lies within the segment's
/// bounding box, hence on the segment.
pub open spec fn within_box(a: (int, int), b: (int, int), p: (int, int)) -> bool {
    &&& vstd::math::min(a.0, b.0) <= p.0 <= vstd::math::max(a.0, b.0)
    &&& vstd::math::min(a.1, b.1) <= p.1 <= vstd::math::max(a.1, b.1)
}

/// Whether two orientation values have strictly opposite signs.
pub open spec fn opposite_sides(o1: int, o2: int) -> bool {
    (o1 > 0 && o2 < 0) || (o1 < 0 && o2 > 0)
}

/// Whether the closed segments `p1 p2` and `p3 p4` share a point: the general
/// case holds when each segment's endpoints lie on opposite sides of the other
/// segment's line; the special cases cover an endpoint touching or collinear
/// overlap.
pub open spec fn segments_intersect(
    p1: (int, int),
    p2: (int, int),
    p3: (int, int),
    p4: (int, int),
) -> bool {
    let o1 = orient(p3, p4, p1);
    let o2 = orient(p3, p4, p2);
    let o3 = orient(p1, p2, p3);
    let o4 = orient(p1, p2, p4);
    ||| (opposite_sides(o1, o2) && opposite_sides(o3, o4))
    ||| (o1 == 0 && within_box(p3, p4, p1))
    ||| (o2 == 0 && within_box(p3, p4, p2))
    ||| (o3 == 0 && within_box(p1, p2, p3))
    ||| (o4 == 0 && within_box(p1, p2, p4))
}

/// Whether moving a sprite's bounding box from `start` to `end` triggers `z`.
pub open spec fn zone_triggered(z: Zone, start: Rect, end: Rect) -> bool {
    match z {
        Zone::Rect(zr) => !rects_overlap(start, zr) && rects_overlap(end, zr),
        Zone::Line(l) => segments_intersect(
            rect_center(start),
            rect_center(end),
            (l.0.0 as int, l.0.1 as int),
            (l.1.0 as int, l.1.1 as int),
        ),
    }
}

/// Signed-area test over machine integers. The bound admits every coordinate
/// this module produces (centers lie in `[-2^31, 2^32]`, line endpoints in
/// `[0, 2^32)`) while keeping all products far inside `i128`.
fn orient_exec(a: (i64, i64), b: (i64, i64), c: (i64, i64)) -> (r: i128)
    requires
        -0x2_0000_0000 <= a.0 <= 0x2_0000_0000,
        -0x2_0000_0000 <= a.1 <= 0x2_0000_0000,
        -0x2_0000_0000 <= b.0 <= 0x2_0000_0000,
        -0x2_0000_0000 <= b.1 <= 0x2_0000_0000,
        -0x2_0000_0000 <= c.0 <= 0x2_0000_0000,
        -0x2_0000_0000 <= c.1 <= 0x2_0000_0000,
    ensures
        r == orient((a.0 as int, a.1 as int), (b.0 as int, b.1 as int), (c.0 as int, c.1 as int)),
{
    let dx1 = (b.0 - a.0) as i128;
    let dy1 = (b.1 - a.1) as i128;
    let dx2 = (c.0 - a.0) as i128;
    let dy2 = (c.1 - a.1) as i128;
    proof {
        lemma_small_product(dx1 as int, dy2 as int);
        lemma_small_product(dy1 as int, dx2 as int);
    }
    dx1 * dy2 - dy1 * dx2
}

/// Bounds the product of two differences of the coordinates above.
proof fn lemma_small_product(a: int, b: int)
    requires
        -0x4_0000_0000 <= a <= 0x4_0000_0000,
        -0x4_0000_0000 <= b <= 0x4_0000_0000,
    ensures
        -0x10_0000_0000_0000_0000 <= a * b <= 0x10_0000_0000_0000_0000,
{
    assert(-0x10_0000_0000_0000_0000 <= a * b <= 0x10_0000_0000_0000_0000) by (nonlinear_arith)
        requires
            -0x4_0000_0000 <= a <= 0x4_0000_0000,
            -0x4_0000_0000 <= b <= 0x4_0000_0000,
    ;
}

/// Whether `p`, given collinear with `a b`, lies within their bounding box.
fn within_box_exec(a: (i64, i64), b: (i64, i64), p: (i64, i64)) -> (r: bool)
    ensures
        r == within_box((a.0 as int, a.1 as int), (b.0 as int, b.1 as int), (p.0 as int, p.1 as int)),
{
    let lox = if a.0 <= b.0 { a.0 } else { b.0 };
    let hix = if a.0 <= b.0 { b.0 } else { a.0 };
    let loy = if a.1 <= b.1 { a.1 } else { b.1 };
    let hiy = if a.1 <= b.1 { b.1 } else { a.1 };
    lox <= p.0 && p.0 <= hix && loy <= p.1 && p.1 <= hiy
}

/// Whether the closed segments `p1 p2` and `p3 p4` intersect.
fn segments_intersect_exec(p1: (i64, i64), p2: (i64, i64), p3: (i64, i64), p4: (i64, i64)) -> (r:
    bool)
    requires
        -0x2_0000_0000 <= p1.0 <= 0x2_0000_0000,
        -0x2_0000_0000 <= p1.1 <= 0x2_0000_0000,
        -0x2_0000_0000 <= p2.0 <= 0x2_0000_0000,
        -0x2_0000_0000 <= p2.1 <= 0x2_0000_0000,
        -0x2_0000_0000 <= p3.0 <= 0x2_0000_0000,
        -0x2_0000_0000 <= p3.1 <= 0x2_0000_0000,
        -0x2_0000_0000 <= p4.0 <= 0x2_0000_0000,
        -0x2_0000_0000 <= p4.1 <= 0x2_0000_0000,
    ensures
        r == segments_intersect(
            (p1.0 as int, p1.1 as int),
            (p2.0 as int, p2.1 as int),
            (p3.0 as int, p3.1 as int),
            (p4.0 as int, p4.1 as int),
        ),
{
    let o1 = orient_exec(p3, p4, p1);
    let o2 = orient_exec(p3, p4, p2);
    let o3 = orient_exec(p1, p2, p3);
    let o4 = orient_exec(p1, p2, p4);
    if ((o1 > 0 && o2 < 0) || (o1 < 0 && o2 > 0)) && ((o3 > 0 && o4 < 0) || (o3 < 0 && o4 > 0)) {
        return true;
    }
    if o1 == 0 && within_box_exec(p3, p4, p1) {
        return true;
    }
    if o2 == 0 && within_box_exec(p3, p4, p2) {
        return true;
    }
    if o3 == 0 && within_box_exec(p1, p2, p3) {
        return true;
    }
    if o4 == 0 && within_box_exec(p1, p2, p4) {
        return true;
    }
    false
}

impl Zone {
    /// Whether the rectangle moving from `start` to `end` entered a `Rect`
    /// zone or its center's path crossed a `Line` zone.
    pub fn sprite_triggered(&self, start: Rect, end: Rect) -> (r: bool)
        ensures
            r == zone_triggered(*self, start, end),
    {
        match self {
            Zone::Rect(zr) => {
                let before = rects_overlap_exec(start, *zr);
                let after = rects_overlap_exec(end, *zr);
                !before && after
            },
            Zone::Line(l) => {
                let c1 = rect_center_exec(start);
                let c2 = rect_center_exec(end);
                let q1 = (l.0.0 as i64, l.0.1 as i64);
                let q2 = (l.1.0 as i64, l.1.1 as i64);
                segments_intersect_exec(c1, c2, q1, q2)
            },
        }
    }
}

/// Whether two half-open rectangles share a point.
pub fn rects_overlap_exec(a: Rect, b: Rect) -> (r: bool)
    ensures
        r == rects_overlap(a, b),
{
    let ax = a.x as i64;
    let ay = a.y as i64;
    let bx = b.x as i64;
    let by = b.y as i64;
    (ax < bx + b.w as i64) && (bx < ax + a.w as i64) && (ay < by + b.h as i64) && (by < ay
        + a.h as i64)
}

/// The center point of a rectangle.
fn rect_center_exec(r: Rect) -> (c: (i64, i64))
    ensures
        (c.0 as int, c.1 as int) == rect_center(r),
        -0x2_0000_0000 <= c.0 <= 0x2_0000_0000,
        -0x2_0000_0000 <= c.1 <= 0x2_0000_0000,
{
    (r.x as i64 + (r.w / 2) as i64, r.y as i64 + (r.h / 2) as i64)
}

} // verus!
