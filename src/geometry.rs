//! Points, the connection tolerance and the proximity tests that decide
//! which pins and wires touch.
//!
//! Coordinates are whole document units. Every distance comparison is
//! carried out exactly on squared integer quantities, so no square root or
//! division is ever needed.

use vstd::prelude::*;

verus! {

/// Distance below which two coordinates are the same connection point.
pub const CONNECTION_TOLERANCE: i64 = 5;

#[derive(Clone, Copy, Debug, PartialEq, Eq, Structural)]
pub struct Point {
    pub x: i32,
    pub y: i32,
}

pub open spec fn abs_int(v: int) -> int {
    if v < 0 { -v } else { v }
}

pub open spec fn tol() -> int {
    CONNECTION_TOLERANCE as int
}

/// Both coordinate deltas are strictly below the tolerance.
pub open spec fn coincide(p: Point, q: Point) -> bool {
    abs_int(p.x - q.x) < tol() && abs_int(p.y - q.y) < tol()
}

pub open spec fn dist_sq(p: Point, q: Point) -> int {
    (p.x - q.x) * (p.x - q.x) + (p.y - q.y) * (p.y - q.y)
}

/// The distance from `p` to the segment `a`-`b` is below the tolerance.
///
/// The closest point of the segment is the projection of `p` onto the line
/// through `a` and `b`, clamped to the segment. With `d = b - a`,
/// `w = p - a` and `s = w . d`, the projection falls before `a` when
/// `s <= 0`, after `b` when `s >= |d|^2`, and otherwise its squared distance
/// to `p` is `(w x d)^2 / |d|^2`. A degenerate segment is the point `a`.
pub open spec fn near_segment(p: Point, a: Point, b: Point) -> bool {
    let dx = b.x - a.x;
    let dy = b.y - a.y;
    let wx = p.x - a.x;
    let wy = p.y - a.y;
    let len_sq = dx * dx + dy * dy;
    let s = wx * dx + wy * dy;
    let t2 = tol() * tol();
    if len_sq == 0 || s <= 0 {
        dist_sq(p, a) < t2
    } else if s >= len_sq {
        dist_sq(p, b) < t2
    } else {
        let c = wx * dy - wy * dx;
        c * c < t2 * len_sq
    }
}

/// `p` coincides with the first or the last point of the polyline.
pub open spec fn touches_endpoint(p: Point, pts: Seq<Point>) -> bool {
    pts.len() > 0 && (coincide(p, pts[0]) || coincide(p, pts.last()))
}

/// `p` lies within tolerance of the segment starting at point `i`.
pub open spec fn near_segment_at(p: Point, pts: Seq<Point>, i: int) -> bool {
    0 <= i < pts.len() - 1 && near_segment(p, pts[i], pts[i + 1])
}

/// A pin at `p` touches the polyline: at an endpoint or along a segment.
pub open spec fn pin_touches_wire(p: Point, pts: Seq<Point>) -> bool {
    touches_endpoint(p, pts) || exists|i: int| #[trigger] near_segment_at(p, pts, i)
}

/// Two polylines meet at an endpoint of each.
pub open spec fn wires_meet(a: Seq<Point>, b: Seq<Point>) -> bool {
    a.len() > 0 && (touches_endpoint(a[0], b) || touches_endpoint(a.last(), b))
}

fn abs_diff(a: i32, b: i32) -> (r: i64)
    ensures
        r == abs_int(a - b),
{
    let d: i64 = a as i64 - b as i64;
    if d < 0 { -d } else { d }
}

/// Whether two points are the same connection point.
pub fn points_coincide(p: Point, q: Point) -> (r: bool)
    ensures
        r == coincide(p, q),
{
    abs_diff(p.x, q.x) < CONNECTION_TOLERANCE && abs_diff(p.y, q.y) < CONNECTION_TOLERANCE
}


proof fn lemma_product_bound(a: int, b: int)
    requires
        -0x1_0000_0000 < a < 0x1_0000_0000,
        -0x1_0000_0000 < b < 0x1_0000_0000,
    ensures
        -0x1_0000_0000_0000_0000 < a * b < 0x1_0000_0000_0000_0000,
{
    assert(abs_int(a) * abs_int(b) < 0x1_0000_0000 * 0x1_0000_0000) by (nonlinear_arith)
        requires
            0 <= abs_int(a) < 0x1_0000_0000,
            0 <= abs_int(b) < 0x1_0000_0000,
    ;
    assert(abs_int(a * b) == abs_int(a) * abs_int(b)) by (nonlinear_arith);
}

proof fn lemma_square_large(c: int, k: int)
    requires
        0 <= k,
        k < abs_int(c),
    ensures
        k * k < c * c,
{
    assert(k * k < abs_int(c) * abs_int(c)) by (nonlinear_arith)
        requires
            0 <= k < abs_int(c),
    ;
    assert(abs_int(c) * abs_int(c) == c * c) by (nonlinear_arith);
}

proof fn lemma_square_small(c: int, k: int)
    requires
        abs_int(c) <= k,
    ensures
        0 <= c * c <= k * k,
{
    assert(abs_int(c) * abs_int(c) <= k * k) by (nonlinear_arith)
        requires
            0 <= abs_int(c) <= k,
    ;
    assert(abs_int(c) * abs_int(c) == c * c) by (nonlinear_arith);
}

/// Whether `p` lies within tolerance of the segment from `a` to `b`.
pub fn point_near_segment(p: Point, a: Point, b: Point) -> (r: bool)
    ensures
        r == near_segment(p, a, b),
{
    let dx: i128 = b.x as i128 - a.x as i128;
    let dy: i128 = b.y as i128 - a.y as i128;
    let wx: i128 = p.x as i128 - a.x as i128;
    let wy: i128 = p.y as i128 - a.y as i128;
    let vx: i128 = p.x as i128 - b.x as i128;
    let vy: i128 = p.y as i128 - b.y as i128;
    proof {
        lemma_product_bound(dx as int, dx as int);
        lemma_product_bound(dy as int, dy as int);
        lemma_product_bound(wx as int, dx as int);
        lemma_product_bound(wy as int, dy as int);
        lemma_product_bound(wx as int, dy as int);
        lemma_product_bound(wy as int, dx as int);
        lemma_product_bound(wx as int, wx as int);
        lemma_product_bound(wy as int, wy as int);
        lemma_product_bound(vx as int, vx as int);
        lemma_product_bound(vy as int, vy as int);
    }
    let len_sq: i128 = dx * dx + dy * dy;
    let s: i128 = wx * dx + wy * dy;
    let t2: i128 = (CONNECTION_TOLERANCE * CONNECTION_TOLERANCE) as i128;
    if len_sq == 0 || s <= 0 {
        wx * wx + wy * wy < t2
    } else if s >= len_sq {
        vx * vx + vy * vy < t2
    } else {
        let c: i128 = wx * dy - wy * dx;
        let k: i128 = 0x100_0000_0000;
        if c > k || c < -k {
            proof {
                lemma_square_large(c as int, 0x100_0000_0000);
            }
            false
        } else {
            proof {
                lemma_square_small(c as int, 0x100_0000_0000);
                assert(c * c <= 0x1_0000_0000_0000_0000_0000);
            }
            c * c < t2 * len_sq
        }
    }
}


/// Whether `p` coincides with an endpoint of the polyline.
pub fn touches_wire_endpoint(p: Point, pts: &Vec<Point>) -> (r: bool)
    ensures
        r == touches_endpoint(p, pts@),
{
    if pts.len() == 0 {
        return false;
    }
    points_coincide(p, pts[0]) || points_coincide(p, pts[pts.len() - 1])
}

/// Whether a pin at `p` touches the polyline `pts`.
pub fn pin_on_wire(p: Point, pts: &Vec<Point>) -> (r: bool)
    ensures
        r == pin_touches_wire(p, pts@),
{
    if touches_wire_endpoint(p, pts) {
        return true;
    }
    let mut i: usize = 0;
    while i < pts.len() && i + 1 < pts.len()
        invariant
            i <= pts.len(),
            forall|j: int| 0 <= j < i ==> !near_segment_at(p, pts@, j),
        decreases pts.len() - i,
    {
        if point_near_segment(p, pts[i], pts[i + 1]) {
            assert(near_segment_at(p, pts@, i as int));
            return true;
        }
        i = i + 1;
    }
    assert forall|j: int| !near_segment_at(p, pts@, j) by {
        if 0 <= j < pts@.len() - 1 {
            assert(j < i);
        }
    }
    false
}

/// Whether two polylines meet at an endpoint of each.
pub fn wires_touch(a: &Vec<Point>, b: &Vec<Point>) -> (r: bool)
    ensures
        r == wires_meet(a@, b@),
{
    if a.len() == 0 {
        return false;
    }
    touches_wire_endpoint(a[0], b) || touches_wire_endpoint(a[a.len() - 1], b)
}


/// Whether the distance between `p` and `q` is below `radius`.
pub fn within_radius(p: Point, q: Point, radius: u16) -> (r: bool)
    ensures
        r == (dist_sq(p, q) < radius * radius),
{
    let dx: i128 = p.x as i128 - q.x as i128;
    let dy: i128 = p.y as i128 - q.y as i128;
    proof {
        lemma_product_bound(dx as int, dx as int);
        lemma_product_bound(dy as int, dy as int);
        lemma_product_bound(radius as int, radius as int);
    }
    let rr: i128 = radius as i128 * radius as i128;
    dx * dx + dy * dy < rr
}


/// The distance from `p` to the segment `a`-`b` is at most `t`; the same
/// clamped projection as `near_segment`, compared inclusively.
pub open spec fn segment_within(p: Point, a: Point, b: Point, t: int) -> bool {
    let dx = b.x - a.x;
    let dy = b.y - a.y;
    let wx = p.x - a.x;
    let wy = p.y - a.y;
    let len_sq = dx * dx + dy * dy;
    let s = wx * dx + wy * dy;
    if len_sq == 0 || s <= 0 {
        dist_sq(p, a) <= t * t
    } else if s >= len_sq {
        dist_sq(p, b) <= t * t
    } else {
        let c = wx * dy - wy * dx;
        c * c <= t * t * len_sq
    }
}

proof fn lemma_scaled_bound(t2: int, len_sq: int)
    requires
        0 <= t2 < 0x1_0000_0000,
        0 <= len_sq < 0x2_0000_0000_0000_0000,
    ensures
        0 <= t2 * len_sq < 0x2_0000_0000_0000_0000_0000_0000,
{
    assert(0 <= t2 * len_sq < 0x2_0000_0000_0000_0000_0000_0000) by (nonlinear_arith)
        requires
            0 <= t2 < 0x1_0000_0000,
            0 <= len_sq < 0x2_0000_0000_0000_0000,
    ;
}

/// Whether `p` lies within distance `t` of the segment from `a` to `b`.
pub fn point_within_segment(p: Point, a: Point, b: Point, t: u16) -> (r: bool)
    ensures
        r == segment_within(p, a, b, t as int),
{
    let dx: i128 = b.x as i128 - a.x as i128;
    let dy: i128 = b.y as i128 - a.y as i128;
    let wx: i128 = p.x as i128 - a.x as i128;
    let wy: i128 = p.y as i128 - a.y as i128;
    let vx: i128 = p.x as i128 - b.x as i128;
    let vy: i128 = p.y as i128 - b.y as i128;
    proof {
        lemma_product_bound(dx as int, dx as int);
        lemma_product_bound(dy as int, dy as int);
        lemma_product_bound(wx as int, dx as int);
        lemma_product_bound(wy as int, dy as int);
        lemma_product_bound(wx as int, dy as int);
        lemma_product_bound(wy as int, dx as int);
        lemma_product_bound(wx as int, wx as int);
        lemma_product_bound(wy as int, wy as int);
        lemma_product_bound(vx as int, vx as int);
        lemma_product_bound(vy as int, vy as int);
        lemma_product_bound(t as int, t as int);
    }
    let len_sq: i128 = dx * dx + dy * dy;
    let s: i128 = wx * dx + wy * dy;
    let t2: i128 = t as i128 * t as i128;
    if len_sq == 0 || s <= 0 {
        wx * wx + wy * wy <= t2
    } else if s >= len_sq {
        vx * vx + vy * vy <= t2
    } else {
        let c: i128 = wx * dy - wy * dx;
        let k: i128 = 0x1000_0000_0000_0000;
        proof {
            let tt = t as int;
            assert(0 <= tt * tt < 0x1_0000_0000) by (nonlinear_arith)
                requires
                    0 <= tt < 0x1_0000,
            ;
            lemma_scaled_bound(t2 as int, len_sq as int);
        }
        if c > k || c < -k {
            proof {
                lemma_square_large(c as int, 0x1000_0000_0000_0000);
            }
            false
        } else {
            proof {
                lemma_square_small(c as int, 0x1000_0000_0000_0000);
            }
            c * c <= t2 * len_sq
        }
    }
}

pub open spec fn point_at(x: i32, y: i32) -> Point {
    Point { x, y }
}

impl Point {
    pub fn new(x: i32, y: i32) -> (r: Self)
        ensures
            r == point_at(x, y),
    {
        Point { x, y }
    }

    /// The sum of the coordinate distances to `other`.
    pub fn manhattan_distance_to(&self, other: &Point) -> (r: i64)
        ensures
            r == abs_int(self.x - other.x) + abs_int(self.y - other.y),
    {
        abs_diff(self.x, other.x) + abs_diff(self.y, other.y)
    }
}

} // verus!
