use vstd::prelude::*;
use crate::geometry::{Aabb, Point, PIXEL, fits};
use crate::timer::{Timer, fresh};

verus! {

/// Player speed, in pixels per second.
pub const PLAYER_SPEED: u32 = 500;

/// Rocket speed, in pixels per second.
pub const ROCKET_SPEED: u32 = 600;

/// Plane speed, in pixels per second.
pub const PLANE_SPEED: u32 = 100;

/// Bomb fall speed, in pixels per second.
pub const BOMB_SPEED: u32 = 100;

/// Nanoseconds between two planes.
pub const PLANE_SPAWN_PERIOD: u64 = 2_000_000_000;

/// Nanoseconds between two bombs of one plane.
pub const BOMB_SPAWN_PERIOD: u64 = 2_000_000_000;

/// Height of the player above the bottom edge: 32 pixels.
pub const PLAYER_ALTITUDE: i64 = 32_000_000_000;

/// Distance of a new plane below the top edge: 100 pixels.
pub const PLANE_DROP: i64 = 100_000_000_000;

/// A bomb is removed once it is this far below the bottom edge: 16 pixels.
pub const BOMB_MARGIN: i64 = 16_000_000_000;

/// Half-extent of the hit box of a player, a plane or a bomb (drawn at scale 2).
pub const BODY_HALF: i64 = PIXEL;

/// Half-extent of the hit box of a rocket (drawn at scale 1): half a pixel.
pub const ROCKET_HALF: i64 = 500_000_000;

/// Largest coordinate magnitude at which every hit box still fits.
pub const COORD_LIMIT: i64 = 0x3fff_ffff_ffff_ffff;

/// The size of the visible area; (0, 0) is its bottom-left corner.
#[derive(Clone, Copy, Debug, PartialEq, Eq, Structural)]
pub struct Screen {
    pub width: i64,
    pub height: i64,
}

impl Screen {
    pub open spec fn wf(self) -> bool {
        &&& 0 <= self.width <= COORD_LIMIT
        &&& 0 <= self.height <= COORD_LIMIT
    }
}

#[derive(Clone, Copy, Debug, PartialEq, Eq, Structural)]
pub struct Player {
    pub position: Point,
    pub movement_speed: u32,
}

#[derive(Clone, Copy, Debug, PartialEq, Eq, Structural)]
pub struct Rocket {
    pub position: Point,
    pub movement_speed: u32,
}

#[derive(Clone, Copy, Debug, PartialEq, Eq, Structural)]
pub struct Plane {
    pub position: Point,
    pub movement_speed: u32,
    pub bomb_spawn_timer: Timer,
    pub number_of_bombs: i32,
}

#[derive(Clone, Copy, Debug, PartialEq, Eq, Structural)]
pub struct Bomb {
    pub position: Point,
    pub falling_speed: u32,
}

/// A coordinate at which a hit box of any entity fits.
pub open spec fn in_field(p: Point) -> bool {
    &&& -COORD_LIMIT <= p.x <= COORD_LIMIT
    &&& -COORD_LIMIT <= p.y <= COORD_LIMIT
}

/// The distance covered at `speed` pixels per second in `dt` nanoseconds.
pub open spec fn travel(speed: u32, dt: u64) -> int {
    speed as int * dt as int
}

/// A distance covered is never negative.
pub proof fn lemma_travel_nonneg(speed: u32, dt: u64)
    ensures
        travel(speed, dt) >= 0,
{
    assert(speed as int * dt as int >= 0) by (nonlinear_arith);
}

/// The horizontal direction asked for by the two arrow keys: pressing both is
/// the same as pressing neither.
pub open spec fn direction_of(left: bool, right: bool) -> int {
    (if right { 1int } else { 0int }) - (if left { 1int } else { 0int })
}

pub open spec fn player_box(p: Player) -> Aabb {
    Aabb { center: p.position, half: Point { x: BODY_HALF, y: BODY_HALF } }
}

pub open spec fn plane_box(p: Plane) -> Aabb {
    Aabb { center: p.position, half: Point { x: BODY_HALF, y: BODY_HALF } }
}

pub open spec fn rocket_box(r: Rocket) -> Aabb {
    Aabb { center: r.position, half: Point { x: ROCKET_HALF, y: ROCKET_HALF } }
}

/// The player of a new game: centered horizontally, near the bottom.
pub open spec fn start_player(screen: Screen) -> Player {
    Player { position: Point { x: (screen.width / 2) as i64, y: PLAYER_ALTITUDE }, movement_speed: PLAYER_SPEED }
}

/// A rocket leaving the player.
pub open spec fn launched_rocket(player: Player) -> Rocket {
    Rocket { position: player.position, movement_speed: ROCKET_SPEED }
}

/// A plane entering at the right edge, below the top.
pub open spec fn entering_plane(screen: Screen) -> Plane {
    Plane {
        position: Point { x: screen.width, y: (screen.height - PLANE_DROP) as i64 },
        movement_speed: PLANE_SPEED,
        bomb_spawn_timer: fresh(BOMB_SPAWN_PERIOD),
        number_of_bombs: 1,
    }
}

/// A bomb leaving `plane`.
pub open spec fn dropped_bomb(plane: Plane) -> Bomb {
    Bomb { position: plane.position, falling_speed: BOMB_SPEED }
}

/// The horizontal direction asked for by the arrow keys.
pub fn direction(left: bool, right: bool) -> (r: i64)
    ensures
        r == direction_of(left, right),
{
    let mut d: i64 = 0;
    if left {
        d = d - 1;
    }
    if right {
        d = d + 1;
    }
    d
}

/// The distance covered at `speed` pixels per second in `dt` nanoseconds.
pub fn travel_exec(speed: u32, dt: u64) -> (r: i128)
    ensures
        r == travel(speed, dt),
        0 <= r <= 0xffff_ffff * 0xffff_ffff_ffff_ffff,
{
    proof {
        assert(0 <= speed as int * dt as int <= 0xffff_ffff * 0xffff_ffff_ffff_ffff) by (nonlinear_arith);
    }
    speed as i128 * dt as i128
}

/// Hit box of the player.
pub fn player_hit_box(p: &Player) -> (r: Aabb)
    requires
        in_field(p.position),
    ensures
        r == player_box(*p),
        r.wf(),
{
    Aabb::new(p.position, Point::new(BODY_HALF, BODY_HALF))
}

/// Hit box of a plane.
pub fn plane_hit_box(p: &Plane) -> (r: Aabb)
    requires
        in_field(p.position),
    ensures
        r == plane_box(*p),
        r.wf(),
{
    Aabb::new(p.position, Point::new(BODY_HALF, BODY_HALF))
}

/// Hit box of a rocket.
pub fn rocket_hit_box(r: &Rocket) -> (b: Aabb)
    requires
        in_field(r.position),
    ensures
        b == rocket_box(*r),
        b.wf(),
{
    Aabb::new(r.position, Point::new(ROCKET_HALF, ROCKET_HALF))
}

/// The player of a new game on `screen`.
pub fn spawn_player(screen: Screen) -> (r: Player)
    requires
        screen.wf(),
    ensures
        r == start_player(screen),
        in_field(r.position),
{
    Player { position: Point::new(screen.width / 2, PLAYER_ALTITUDE), movement_speed: PLAYER_SPEED }
}

/// Where the camera stands: the middle of the screen.
pub fn camera_position(screen: Screen) -> (r: Point)
    requires
        screen.wf(),
    ensures
        r.x == screen.width / 2,
        r.y == screen.height / 2,
{
    Point::new(screen.width / 2, screen.height / 2)
}

/// Moves the player horizontally by its speed, the arrow keys' direction and
/// the elapsed time. Nothing bounds the result but the machine.
pub fn move_player(player: &mut Player, left: bool, right: bool, dt: u64)
    requires
        fits(old(player).position.x + direction_of(left, right) * travel(old(player).movement_speed, dt)),
    ensures
        final(player).position.x == old(player).position.x + direction_of(left, right) * travel(
            old(player).movement_speed,
            dt,
        ),
        final(player).position.y == old(player).position.y,
        final(player).movement_speed == old(player).movement_speed,
{
    let d = direction(left, right);
    let step = travel_exec(player.movement_speed, dt);
    let x: i128 = player.position.x as i128 + d as i128 * step;
    player.position.x = x as i64;
}

} // verus!
