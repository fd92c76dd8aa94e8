use vstd::prelude::*;
use crate::geometry::{Point, fits};
use crate::timer::{Timer, tick_of};
use crate::entities::{
    Bomb, Plane, Player, Rocket, Screen, travel, travel_exec, launched_rocket, entering_plane,
    dropped_bomb, lemma_travel_nonneg, BOMB_MARGIN, BOMB_SPAWN_PERIOD, BOMB_SPEED, PLANE_DROP, PLANE_SPEED, ROCKET_SPEED,
};

verus! {

/// A rocket below the top edge climbs; one at or above it is gone.
pub open spec fn rocket_after(r: Rocket, height: int, dt: u64) -> Option<Rocket> {
    if r.position.y < height {
        Some(
            Rocket {
                position: Point { x: r.position.x, y: (r.position.y + travel(r.movement_speed, dt)) as i64 },
                movement_speed: r.movement_speed,
            },
        )
    } else {
        None
    }
}

/// A plane below the top edge flies left; one at or above it is gone. The
/// bound is read on the vertical axis although planes fly horizontally.
pub open spec fn plane_after(p: Plane, height: int, dt: u64) -> Option<Plane> {
    if p.position.y < height {
        Some(
            Plane {
                position: Point { x: (p.position.x - travel(p.movement_speed, dt)) as i64, y: p.position.y },
                ..p
            },
        )
    } else {
        None
    }
}

/// A bomb above the margin below the bottom edge falls; one at or below it is gone.
pub open spec fn bomb_after(b: Bomb, dt: u64) -> Option<Bomb> {
    if b.position.y > -BOMB_MARGIN {
        Some(
            Bomb {
                position: Point { x: b.position.x, y: (b.position.y - travel(b.falling_speed, dt)) as i64 },
                falling_speed: b.falling_speed,
            },
        )
    } else {
        None
    }
}

pub open spec fn advance_rockets(s: Seq<Rocket>, height: int, dt: u64) -> Seq<Rocket> {
    s.filter_map(|r: Rocket| rocket_after(r, height, dt))
}

pub open spec fn advance_planes(s: Seq<Plane>, height: int, dt: u64) -> Seq<Plane> {
    s.filter_map(|p: Plane| plane_after(p, height, dt))
}

pub open spec fn advance_bombs(s: Seq<Bomb>, dt: u64) -> Seq<Bomb> {
    s.filter_map(|b: Bomb| bomb_after(b, dt))
}

/// A bomb under each plane whose bomb timer has just run out, in plane order.
pub open spec fn released_bombs(planes: Seq<Plane>) -> Seq<Bomb> {
    planes.filter_map(
        |p: Plane|
            if p.bomb_spawn_timer.finished {
                Some(dropped_bomb(p))
            } else {
                None
            },
    )
}

/// `p` with its bomb timer advanced by `dt` nanoseconds.
pub open spec fn plane_ticked(p: Plane, dt: u64) -> Plane {
    Plane { bomb_spawn_timer: tick_of(p.bomb_spawn_timer, dt as int), ..p }
}

/// Every rocket that is still in flight can take its next step.
pub open spec fn rockets_can_move(s: Seq<Rocket>, height: int, dt: u64) -> bool {
    forall|i: int|
        0 <= i < s.len() && (#[trigger] s[i]).position.y < height ==> fits(
            s[i].position.y + travel(s[i].movement_speed, dt),
        )
}

/// Every plane that is still in flight can take its next step.
pub open spec fn planes_can_move(s: Seq<Plane>, height: int, dt: u64) -> bool {
    forall|i: int|
        0 <= i < s.len() && (#[trigger] s[i]).position.y < height ==> fits(
            s[i].position.x - travel(s[i].movement_speed, dt),
        )
}

/// Every bomb that is still falling can take its next step.
pub open spec fn bombs_can_move(s: Seq<Bomb>, dt: u64) -> bool {
    forall|i: int|
        0 <= i < s.len() && (#[trigger] s[i]).position.y > -BOMB_MARGIN ==> fits(
            s[i].position.y - travel(s[i].falling_speed, dt),
        )
}

/// Climbs every rocket below the top edge and removes the others.
pub fn rocket_update(rockets: &mut Vec<Rocket>, height: i64, dt: u64)
    requires
        rockets_can_move(old(rockets)@, height as int, dt),
    ensures
        final(rockets)@ == advance_rockets(old(rockets)@, height as int, dt),
{
    let mut kept: Vec<Rocket> = Vec::new();
    let mut i: usize = 0;
    while i < rockets.len()
        invariant
            i <= rockets.len(),
            rockets@ == old(rockets)@,
            rockets_can_move(rockets@, height as int, dt),
            kept@ == advance_rockets(rockets@.subrange(0, i as int), height as int, dt),
        decreases rockets.len() - i,
    {
        let r = rockets[i];
        if r.position.y < height {
            let y: i128 = r.position.y as i128 + travel_exec(r.movement_speed, dt);
            kept.push(Rocket { position: Point::new(r.position.x, y as i64), movement_speed: r.movement_speed });
        }
        assert(rockets@.subrange(0, i + 1).drop_last() =~= rockets@.subrange(0, i as int));
        i = i + 1;
    }
    assert(rockets@.subrange(0, i as int) =~= rockets@);
    *rockets = kept;
}

/// Flies every plane below the top edge to the left and removes the others.
pub fn plane_update(planes: &mut Vec<Plane>, height: i64, dt: u64)
    requires
        planes_can_move(old(planes)@, height as int, dt),
    ensures
        final(planes)@ == advance_planes(old(planes)@, height as int, dt),
{
    let mut kept: Vec<Plane> = Vec::new();
    let mut i: usize = 0;
    while i < planes.len()
        invariant
            i <= planes.len(),
            planes@ == old(planes)@,
            planes_can_move(planes@, height as int, dt),
            kept@ == advance_planes(planes@.subrange(0, i as int), height as int, dt),
        decreases planes.len() - i,
    {
        let p = planes[i];
        if p.position.y < height {
            let x: i128 = p.position.x as i128 - travel_exec(p.movement_speed, dt);
            kept.push(Plane { position: Point::new(x as i64, p.position.y), ..p });
        }
        assert(planes@.subrange(0, i + 1).drop_last() =~= planes@.subrange(0, i as int));
        i = i + 1;
    }
    assert(planes@.subrange(0, i as int) =~= planes@);
    *planes = kept;
}

/// Drops every bomb above the margin below the bottom edge and removes the others.
pub fn update_bombs(bombs: &mut Vec<Bomb>, dt: u64)
    requires
        bombs_can_move(old(bombs)@, dt),
    ensures
        final(bombs)@ == advance_bombs(old(bombs)@, dt),
{
    let mut kept: Vec<Bomb> = Vec::new();
    let mut i: usize = 0;
    while i < bombs.len()
        invariant
            i <= bombs.len(),
            bombs@ == old(bombs)@,
            bombs_can_move(bombs@, dt),
            kept@ == advance_bombs(bombs@.subrange(0, i as int), dt),
        decreases bombs.len() - i,
    {
        let b = bombs[i];
        if b.position.y > -BOMB_MARGIN {
            let y: i128 = b.position.y as i128 - travel_exec(b.falling_speed, dt);
            kept.push(Bomb { position: Point::new(b.position.x, y as i64), falling_speed: b.falling_speed });
        }
        assert(bombs@.subrange(0, i + 1).drop_last() =~= bombs@.subrange(0, i as int));
        i = i + 1;
    }
    assert(bombs@.subrange(0, i as int) =~= bombs@);
    *bombs = kept;
}

/// On the fire key's press, launches one rocket from where the player stands.
pub fn fire_rocket(player: &Player, rockets: &mut Vec<Rocket>, fire_pressed: bool)
    ensures
        final(rockets)@ == if fire_pressed {
            old(rockets)@.push(launched_rocket(*player))
        } else {
            old(rockets)@
        },
{
    if fire_pressed {
        rockets.push(Rocket { position: player.position, movement_speed: ROCKET_SPEED });
    }
}

/// When the plane timer has just run out, sends in one plane at the right edge.
pub fn spawn_planes(plane_spawn_timer: &Timer, planes: &mut Vec<Plane>, screen: Screen)
    requires
        screen.wf(),
    ensures
        final(planes)@ == if plane_spawn_timer.finished {
            old(planes)@.push(entering_plane(screen))
        } else {
            old(planes)@
        },
{
    if plane_spawn_timer.finished() {
        let plane = Plane {
            position: Point::new(screen.width, screen.height - PLANE_DROP),
            movement_speed: PLANE_SPEED,
            bomb_spawn_timer: Timer::new(BOMB_SPAWN_PERIOD),
            number_of_bombs: 1,
        };
        planes.push(plane);
    }
}

/// Releases a bomb under each plane whose bomb timer has just run out.
pub fn spawn_bombs(planes: &Vec<Plane>, bombs: &mut Vec<Bomb>)
    ensures
        final(bombs)@ == old(bombs)@ + released_bombs(planes@),
{
    let ghost start = bombs@;
    let mut i: usize = 0;
    while i < planes.len()
        invariant
            i <= planes.len(),
            bombs@ == start + released_bombs(planes@.subrange(0, i as int)),
        decreases planes.len() - i,
    {
        let p = planes[i];
        assert(planes@.subrange(0, i + 1).drop_last() =~= planes@.subrange(0, i as int));
        if p.bomb_spawn_timer.finished() {
            bombs.push(Bomb { position: p.position, falling_speed: BOMB_SPEED });
            assert(bombs@ =~= start + released_bombs(planes@.subrange(0, i + 1)));
        }
        i = i + 1;
    }
    assert(planes@.subrange(0, i as int) =~= planes@);
}

/// Advances the bomb timer of every plane by `dt` nanoseconds.
pub fn bomb_spawn_timer_update(planes: &mut Vec<Plane>, dt: u64)
    requires
        forall|i: int| 0 <= i < old(planes).len() ==> (#[trigger] old(planes)[i]).bomb_spawn_timer.wf(),
    ensures
        final(planes)@ == old(planes)@.map_values(|p: Plane| plane_ticked(p, dt)),
        forall|i: int| 0 <= i < final(planes).len() ==> (#[trigger] final(planes)[i]).bomb_spawn_timer.wf(),
{
    let mut i: usize = 0;
    while i < planes.len()
        invariant
            i <= planes.len(),
            planes.len() == old(planes).len(),
            forall|j: int| 0 <= j < i ==> #[trigger] planes[j] == plane_ticked(old(planes)[j], dt),
            forall|j: int| i <= j < planes.len() ==> #[trigger] planes[j] == old(planes)[j],
            forall|j: int| 0 <= j < planes.len() ==> (#[trigger] planes[j]).bomb_spawn_timer.wf(),
        decreases planes.len() - i,
    {
        let mut p = planes[i];
        p.bomb_spawn_timer.tick(dt);
        planes.set(i, p);
        i = i + 1;
    }
    assert(planes@ =~= old(planes)@.map_values(|p: Plane| plane_ticked(p, dt)));
}

} // verus!

verus! {

/// A rocket launched from the player starts exactly where the player stands.
/// From then on each frame keeps it, climbed by one frame's travel, while it is
/// below the top edge, and removes it in the first frame that finds it at or
/// above the top edge.
pub proof fn lemma_rocket_lifecycle(player: Player, r: Rocket, s: Seq<Rocket>, height: int, dt: u64)
    ensures
        launched_rocket(player).position == player.position,
        r.position.y < height ==> advance_rockets(s.push(r), height, dt) == advance_rockets(s, height, dt).push(
            Rocket {
                position: Point { x: r.position.x, y: (r.position.y + travel(r.movement_speed, dt)) as i64 },
                movement_speed: r.movement_speed,
            },
        ),
        r.position.y >= height ==> advance_rockets(s.push(r), height, dt) == advance_rockets(s, height, dt),
{
    assert(s.push(r).drop_last() =~= s);
}

/// A bomb released by a plane starts exactly where the plane is. While it is
/// above the margin below the bottom edge each frame keeps it and lowers it,
/// by no more than one frame's fall; once it is at or below the margin the
/// next frame removes it.
pub proof fn lemma_bomb_fall(plane: Plane, b: Bomb, s: Seq<Bomb>, dt: u64)
    ensures
        dropped_bomb(plane).position == plane.position,
        b.position.y > -BOMB_MARGIN ==> advance_bombs(s.push(b), dt) == advance_bombs(s, dt).push(
            Bomb {
                position: Point { x: b.position.x, y: (b.position.y - travel(b.falling_speed, dt)) as i64 },
                falling_speed: b.falling_speed,
            },
        ),
        b.position.y > -BOMB_MARGIN && fits(b.position.y - travel(b.falling_speed, dt)) ==> {
            let y = (b.position.y - travel(b.falling_speed, dt)) as i64;
            &&& y <= b.position.y
            &&& y > -BOMB_MARGIN - travel(b.falling_speed, dt)
        },
        b.position.y <= -BOMB_MARGIN ==> advance_bombs(s.push(b), dt) == advance_bombs(s, dt),
{
    assert(s.push(b).drop_last() =~= s);
    lemma_travel_nonneg(b.falling_speed, dt);
}

} // verus!
