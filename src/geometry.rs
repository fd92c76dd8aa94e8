use vstd::prelude::*;

verus! {

/// Length units per screen pixel: positions are held in billionths of a pixel,
/// so that a speed in pixels per second times an elapsed time in nanoseconds is
/// an exact displacement.
pub const PIXEL: i64 = 1_000_000_000;

/// A point on the screen plane.
#[derive(Clone, Copy, Debug, PartialEq, Eq, Structural)]
pub struct Point {
    pub x: i64,
    pub y: i64,
}

impl Point {
    pub fn new(x: i64, y: i64) -> (r: Point)
        ensures
            r.x == x,
            r.y == y,
    {
        Point { x, y }
    }
}

/// An axis-aligned box given by its center and its half-extents.
#[derive(Clone, Copy, Debug, PartialEq, Eq, Structural)]
pub struct Aabb {
    pub center: Point,
    pub half: Point,
}

/// The side of the struck box on which the striking box's center lies.
#[derive(Clone, Copy, Debug, PartialEq, Eq, Structural)]
pub enum Collision {
    Left,
    Right,
    Top,
    Bottom,
}

/// A value that fits a machine coordinate.
pub open spec fn fits(v: int) -> bool {
    i64::MIN <= v <= i64::MAX
}

pub open spec fn min_x(b: Aabb) -> int {
    b.center.x - b.half.x
}

pub open spec fn max_x(b: Aabb) -> int {
    b.center.x + b.half.x
}

pub open spec fn min_y(b: Aabb) -> int {
    b.center.y - b.half.y
}

pub open spec fn max_y(b: Aabb) -> int {
    b.center.y + b.half.y
}

impl Aabb {
    /// Non-negative half-extents, and every corner a machine coordinate.
    pub open spec fn wf(self) -> bool {
        &&& self.half.x >= 0
        &&& self.half.y >= 0
        &&& fits(min_x(self))
        &&& fits(max_x(self))
        &&& fits(min_y(self))
        &&& fits(max_y(self))
    }

    pub fn new(center: Point, half: Point) -> (r: Aabb)
        requires
            half.x >= 0,
            half.y >= 0,
            fits(center.x - half.x),
            fits(center.x + half.x),
            fits(center.y - half.y),
            fits(center.y + half.y),
        ensures
            r.center == center,
            r.half == half,
            r.wf(),
    {
        Aabb { center, half }
    }
}

/// The two boxes overlap on both axes; boxes that touch count as overlapping.
pub open spec fn intersects(a: Aabb, b: Aabb) -> bool {
    &&& min_x(a) <= max_x(b)
    &&& max_x(a) >= min_x(b)
    &&& min_y(a) <= max_y(b)
    &&& max_y(a) >= min_y(b)
}

pub open spec fn clamp(v: int, lo: int, hi: int) -> int {
    if v < lo {
        lo
    } else if v > hi {
        hi
    } else {
        v
    }
}

/// The side named by an offset: the axis of larger magnitude wins, and a tie
/// goes to the vertical axis.
pub open spec fn side_of(dx: int, dy: int) -> Collision {
    if abs(dx) > abs(dy) {
        if dx < 0 {
            Collision::Left
        } else {
            Collision::Right
        }
    } else if dy > 0 {
        Collision::Top
    } else {
        Collision::Bottom
    }
}

pub open spec fn abs(v: int) -> int {
    if v < 0 {
        -v
    } else {
        v
    }
}

/// No hit when the boxes are apart; otherwise the side of `collider` that
/// `colliding` struck, read from the offset of the center of `colliding` to the
/// point of `collider` nearest to it.
pub open spec fn collision_of(colliding: Aabb, collider: Aabb) -> Option<Collision> {
    if !intersects(colliding, collider) {
        None
    } else {
        let nx = clamp(colliding.center.x as int, min_x(collider), max_x(collider));
        let ny = clamp(colliding.center.y as int, min_y(collider), max_y(collider));
        Some(side_of(colliding.center.x - nx, colliding.center.y - ny))
    }
}

/// Whether two well-formed boxes overlap.
pub fn intersects_exec(a: &Aabb, b: &Aabb) -> (r: bool)
    requires
        a.wf(),
        b.wf(),
    ensures
        r == intersects(*a, *b),
{
    let a_min_x = a.center.x - a.half.x;
    let a_max_x = a.center.x + a.half.x;
    let a_min_y = a.center.y - a.half.y;
    let a_max_y = a.center.y + a.half.y;
    let b_min_x = b.center.x - b.half.x;
    let b_max_x = b.center.x + b.half.x;
    let b_min_y = b.center.y - b.half.y;
    let b_max_y = b.center.y + b.half.y;
    a_min_x <= b_max_x && a_max_x >= b_min_x && a_min_y <= b_max_y && a_max_y >= b_min_y
}

/// The point of `b` nearest to `p`.
pub fn closest_point(b: &Aabb, p: Point) -> (r: Point)
    requires
        b.wf(),
    ensures
        r.x == clamp(p.x as int, min_x(*b), max_x(*b)),
        r.y == clamp(p.y as int, min_y(*b), max_y(*b)),
{
    let lo_x = b.center.x - b.half.x;
    let hi_x = b.center.x + b.half.x;
    let lo_y = b.center.y - b.half.y;
    let hi_y = b.center.y + b.half.y;
    let x = if p.x < lo_x {
        lo_x
    } else if p.x > hi_x {
        hi_x
    } else {
        p.x
    };
    let y = if p.y < lo_y {
        lo_y
    } else if p.y > hi_y {
        hi_y
    } else {
        p.y
    };
    Point { x, y }
}

fn abs_wide(v: i128) -> (r: i128)
    requires
        v > i128::MIN,
    ensures
        r == abs(v as int),
{
    if v < 0 {
        -v
    } else {
        v
    }
}

/// Tests `colliding` against `collider` and, on a hit, names the side of
/// `collider` that was struck.
pub fn is_collision(colliding: Aabb, collider: Aabb) -> (r: Option<Collision>)
    requires
        colliding.wf(),
        collider.wf(),
    ensures
        r == collision_of(colliding, collider),
{
    if !intersects_exec(&colliding, &collider) {
        return None;
    }
    let closest = closest_point(&collider, colliding.center);
    let dx: i128 = colliding.center.x as i128 - closest.x as i128;
    let dy: i128 = colliding.center.y as i128 - closest.y as i128;
    let side = if abs_wide(dx) > abs_wide(dy) {
        if dx < 0 {
            Collision::Left
        } else {
            Collision::Right
        }
    } else if dy > 0 {
        Collision::Top
    } else {
        Collision::Bottom
    };
    Some(side)
}

} // verus!
