use vstd::prelude::*;
use crate::geometry::{Collision, Point, fits};
use crate::timer::{Timer, tick_of};
use crate::entities::{
    Bomb, Plane, Player, Rocket, Screen, in_field, travel, direction_of, start_player, launched_rocket,
    entering_plane, dropped_bomb, lemma_travel_nonneg, move_player, direction, travel_exec, spawn_player, BOMB_MARGIN, COORD_LIMIT, PLANE_SPAWN_PERIOD,
};
use crate::systems::{
    rocket_after, plane_after, bomb_after, advance_rockets, advance_planes, advance_bombs, released_bombs, plane_ticked, rocket_update,
    plane_update, update_bombs, fire_rocket, spawn_planes, spawn_bombs, bomb_spawn_timer_update,
};
use crate::collision::{CollisionReport, all_hits, collider_boxes, plane_boxes_of, surviving_rockets, surviving_planes, rocket_collision,
    rocket_struck, plane_struck};

verus! {

/// The keys read in one frame: the two arrows held, and whether fire was
/// pressed in this frame (not merely held).
#[derive(Clone, Copy, Debug, PartialEq, Eq, Structural)]
pub struct FrameInput {
    pub left: bool,
    pub right: bool,
    pub fire: bool,
}

/// Everything that lives between two frames.
pub struct World {
    pub screen: Screen,
    pub player: Player,
    pub rockets: Vec<Rocket>,
    pub planes: Vec<Plane>,
    pub bombs: Vec<Bomb>,
    pub plane_spawn_timer: Timer,
}

/// The world as plain values.
pub struct WorldState {
    pub screen: Screen,
    pub player: Player,
    pub rockets: Seq<Rocket>,
    pub planes: Seq<Plane>,
    pub bombs: Seq<Bomb>,
    pub plane_spawn_timer: Timer,
}

impl View for World {
    type V = WorldState;

    open spec fn view(&self) -> WorldState {
        WorldState {
            screen: self.screen,
            player: self.player,
            rockets: self.rockets@,
            planes: self.planes@,
            bombs: self.bombs@,
            plane_spawn_timer: self.plane_spawn_timer,
        }
    }
}

impl WorldState {
    /// Every timer runs, and every entity has room for its hit box.
    pub open spec fn wf(self) -> bool {
        &&& self.screen.wf()
        &&& self.plane_spawn_timer.wf()
        &&& in_field(self.player.position)
        &&& forall|i: int| 0 <= i < self.rockets.len() ==> in_field((#[trigger] self.rockets[i]).position)
        &&& forall|i: int| 0 <= i < self.planes.len() ==> in_field((#[trigger] self.planes[i]).position)
        &&& forall|i: int| 0 <= i < self.planes.len() ==> (#[trigger] self.planes[i]).bomb_spawn_timer.wf()
        &&& forall|i: int| 0 <= i < self.bombs.len() ==> in_field((#[trigger] self.bombs[i]).position)
    }

    /// Every movement of the next frame of `dt` nanoseconds stays where hit
    /// boxes fit.
    pub open spec fn can_step(self, input: FrameInput, dt: u64) -> bool {
        let h = self.screen.height as int;
        &&& -COORD_LIMIT <= self.player.position.x + direction_of(input.left, input.right)
            * travel(self.player.movement_speed, dt) <= COORD_LIMIT
        &&& forall|i: int|
            0 <= i < self.rockets.len() && (#[trigger] self.rockets[i]).position.y < h ==> self.rockets[i].position.y
                + travel(self.rockets[i].movement_speed, dt) <= COORD_LIMIT
        &&& forall|i: int|
            0 <= i < self.planes.len() && (#[trigger] self.planes[i]).position.y < h ==> self.planes[i].position.x
                - travel(self.planes[i].movement_speed, dt) >= -COORD_LIMIT
        &&& forall|i: int|
            0 <= i < self.bombs.len() && (#[trigger] self.bombs[i]).position.y > -BOMB_MARGIN ==> self.bombs[i].position.y
                - travel(self.bombs[i].falling_speed, dt) >= -COORD_LIMIT
    }
}

/// The player after the arrow keys of `input` moved it for `dt` nanoseconds.
pub open spec fn moved_player(p: Player, input: FrameInput, dt: u64) -> Player {
    Player {
        position: Point {
            x: (p.position.x + direction_of(input.left, input.right) * travel(p.movement_speed, dt)) as i64,
            y: p.position.y,
        },
        movement_speed: p.movement_speed,
    }
}

/// The world after the movements, timer ticks and spawns of one frame, before
/// the collision pass.
pub open spec fn advanced(s: WorldState, input: FrameInput, dt: u64) -> WorldState {
    let h = s.screen.height as int;
    let player = moved_player(s.player, input, dt);
    let rockets = advance_rockets(s.rockets, h, dt);
    let timer = tick_of(s.plane_spawn_timer, dt as int);
    let planes = advance_planes(s.planes, h, dt).map_values(|p: Plane| plane_ticked(p, dt));
    let bombs = advance_bombs(s.bombs, dt) + released_bombs(planes);
    WorldState {
        screen: s.screen,
        player,
        rockets: if input.fire { rockets.push(launched_rocket(player)) } else { rockets },
        planes: if timer.finished { planes.push(entering_plane(s.screen)) } else { planes },
        bombs,
        plane_spawn_timer: timer,
    }
}

/// Whether the collision pass runs: only while rockets and planes both exist.
pub open spec fn collisions_run(s: WorldState) -> bool {
    s.rockets.len() > 0 && s.planes.len() > 0
}

/// One whole frame: the world after it, the sides of all rocket overlaps with
/// the player or a plane, and the collision notifications, one per rocket
/// overlapping a plane.
pub open spec fn frame(s: WorldState, input: FrameInput, dt: u64) -> (WorldState, Seq<Collision>, Seq<
    Collision,
>) {
    let a = advanced(s, input, dt);
    if collisions_run(a) {
        (
            WorldState {
                rockets: surviving_rockets(a.rockets, a.planes),
                planes: surviving_planes(a.planes, a.rockets),
                ..a
            },
            all_hits(a.rockets, collider_boxes(a.player, a.planes)),
            all_hits(a.rockets, plane_boxes_of(a.planes)),
        )
    } else {
        (a, seq![], seq![])
    }
}

impl World {
    /// A new game on `screen`: the player alone, and the plane timer at rest.
    pub fn new(screen: Screen) -> (r: World)
        requires
            screen.wf(),
        ensures
            r@.screen == screen,
            r@.player == start_player(screen),
            r@.rockets.len() == 0,
            r@.planes.len() == 0,
            r@.bombs.len() == 0,
            r@.plane_spawn_timer == crate::timer::fresh(PLANE_SPAWN_PERIOD),
            r@.wf(),
    {
        World {
            screen,
            player: spawn_player(screen),
            rockets: Vec::new(),
            planes: Vec::new(),
            bombs: Vec::new(),
            plane_spawn_timer: Timer::new(PLANE_SPAWN_PERIOD),
        }
    }

    /// Whether any rocket is in flight.
    pub fn run_if_rockets(&self) -> (r: bool)
        ensures
            r == (self.rockets.len() > 0),
    {
        self.rockets.len() > 0
    }

    /// Whether any plane is in flight.
    pub fn run_if_planes(&self) -> (r: bool)
        ensures
            r == (self.planes.len() > 0),
    {
        self.planes.len() > 0
    }

    /// Whether any bomb is falling.
    pub fn run_if_bombs(&self) -> (r: bool)
        ensures
            r == (self.bombs.len() > 0),
    {
        self.bombs.len() > 0
    }

    /// Whether the collision pass has anything to do.
    pub fn run_if_rockets_and_planes(&self) -> (r: bool)
        ensures
            r == collisions_run(self@),
    {
        if self.run_if_rockets() && self.run_if_planes() {
            true
        } else {
            false
        }
    }

    /// Advances the plane timer by `dt` nanoseconds.
    pub fn plane_spawn_timer_update(&mut self, dt: u64)
        requires
            old(self).plane_spawn_timer.wf(),
        ensures
            final(self).plane_spawn_timer == tick_of(old(self).plane_spawn_timer, dt as int),
            final(self)@.screen == old(self)@.screen,
            final(self)@.player == old(self)@.player,
            final(self)@.rockets == old(self)@.rockets,
            final(self)@.planes == old(self)@.planes,
            final(self)@.bombs == old(self)@.bombs,
    {
        self.plane_spawn_timer.tick(dt);
    }

    /// Whether every movement of a frame of `dt` nanoseconds with `input`
    /// stays where hit boxes fit, as `step` requires.
    #[verifier::loop_isolation(false)]
    pub fn can_step(&self, input: FrameInput, dt: u64) -> (r: bool)
        requires
            self@.wf(),
        ensures
            r == self@.can_step(input, dt),
    {
        let h = self.screen.height;
        let limit: i128 = 0x3fff_ffff_ffff_ffff;
        let low: i128 = -0x3fff_ffff_ffff_ffff;
        let d = direction(input.left, input.right);
        let step = travel_exec(self.player.movement_speed, dt);
        let px = self.player.position.x as i128;
        let x: i128 = if d < 0 {
            px - step
        } else if d > 0 {
            px + step
        } else {
            px
        };
        proof {
            if d < 0 {
                assert(d == -1);
                assert(x == px + d * step) by (nonlinear_arith)
                    requires
                        d == -1,
                        x == px - step,
                ;
            } else if d > 0 {
                assert(x == px + d * step) by (nonlinear_arith)
                    requires
                        d == 1,
                        x == px + step,
                ;
            } else {
                assert(x == px + d * step) by (nonlinear_arith)
                    requires
                        d == 0,
                        x == px,
                ;
            }
        }
        if x < low || x > limit {
            return false;
        }
        let mut i: usize = 0;
        while i < self.rockets.len()
            invariant
                i <= self.rockets.len(),
                limit == COORD_LIMIT,
                low == -COORD_LIMIT,
                h == self.screen.height,
                forall|j: int|
                    0 <= j < i && (#[trigger] self.rockets@[j]).position.y < h ==> self.rockets@[j].position.y
                        + travel(self.rockets@[j].movement_speed, dt) <= COORD_LIMIT,
            decreases self.rockets.len() - i,
        {
            let r = self.rockets[i];
            assert(self.rockets@[i as int] == r);
            if r.position.y < h && r.position.y as i128 + travel_exec(r.movement_speed, dt) > limit {
                assert(self@.rockets[i as int] == r);
                return false;
            }
            i = i + 1;
        }
        let mut i: usize = 0;
        while i < self.planes.len()
            invariant
                i <= self.planes.len(),
                limit == COORD_LIMIT,
                low == -COORD_LIMIT,
                h == self.screen.height,
                forall|j: int|
                    0 <= j < i && (#[trigger] self.planes@[j]).position.y < h ==> self.planes@[j].position.x
                        - travel(self.planes@[j].movement_speed, dt) >= -COORD_LIMIT,
            decreases self.planes.len() - i,
        {
            let p = self.planes[i];
            assert(self.planes@[i as int] == p);
            if p.position.y < h && p.position.x as i128 - travel_exec(p.movement_speed, dt) < low {
                assert(self@.planes[i as int] == p);
                return false;
            }
            i = i + 1;
        }
        let mut i: usize = 0;
        while i < self.bombs.len()
            invariant
                i <= self.bombs.len(),
                limit == COORD_LIMIT,
                low == -COORD_LIMIT,
                forall|j: int|
                    0 <= j < i && (#[trigger] self.bombs@[j]).position.y > -BOMB_MARGIN ==> self.bombs@[j].position.y
                        - travel(self.bombs@[j].falling_speed, dt) >= -COORD_LIMIT,
            decreases self.bombs.len() - i,
        {
            let b = self.bombs[i];
            assert(self.bombs@[i as int] == b);
            if b.position.y > -BOMB_MARGIN && b.position.y as i128 - travel_exec(b.falling_speed, dt) < low {
                assert(self@.bombs[i as int] == b);
                return false;
            }
            i = i + 1;
        }
        true
    }

    /// Runs one frame of `dt` nanoseconds: the player moves, rockets, planes
    /// and bombs move or leave, the timers tick, fire launches a rocket, the
    /// timers that ran out spawn a plane and bombs, and the collision pass
    /// removes struck rockets and planes. Returns the sides of every overlap
    /// and one collision notification per rocket overlapping a plane.
    pub fn step(&mut self, input: FrameInput, dt: u64) -> (report: CollisionReport)
        requires
            old(self)@.wf(),
            old(self)@.can_step(input, dt),
        ensures
            (final(self)@, report.sides@, report.notifications@) == frame(old(self)@, input, dt),
            final(self)@.wf(),
    {
        let h = self.screen.height;
        let ghost s0 = self@;
        let ghost a = advanced(s0, input, dt);
        let ghost hh = h as int;
        proof {
            lemma_travel_nonneg(s0.player.movement_speed, dt);
        }
        move_player(&mut self.player, input.left, input.right, dt);
        assert(self.player == a.player);

        proof {
            assert forall|i: int| 0 <= i < s0.rockets.len() && (#[trigger] s0.rockets[i]).position.y < hh
                implies fits(s0.rockets[i].position.y + travel(s0.rockets[i].movement_speed, dt)) by {
                lemma_travel_nonneg(s0.rockets[i].movement_speed, dt);
            }
            assert forall|i: int| 0 <= i < s0.rockets.len() implies match (|r: Rocket| rocket_after(r, hh, dt))(#[trigger] s0.rockets[i]) {
                Some(b) => (|r: Rocket| in_field(r.position))(b),
                None => true,
            } by {
                lemma_travel_nonneg(s0.rockets[i].movement_speed, dt);
            }
            lemma_filter_map_keeps(s0.rockets, |r: Rocket| rocket_after(r, hh, dt), |r: Rocket| in_field(r.position));
            if s0.rockets.len() == 0 {
                assert(advance_rockets(s0.rockets, hh, dt) =~= seq![]);
            }
        }
        if self.run_if_rockets() {
            rocket_update(&mut self.rockets, h, dt);
        }
        assert(self.rockets@ == advance_rockets(s0.rockets, hh, dt));

        proof {
            assert forall|i: int| 0 <= i < s0.planes.len() && (#[trigger] s0.planes[i]).position.y < hh
                implies fits(s0.planes[i].position.x - travel(s0.planes[i].movement_speed, dt)) by {
                lemma_travel_nonneg(s0.planes[i].movement_speed, dt);
            }
            assert forall|i: int| 0 <= i < s0.planes.len() implies match (|p: Plane| plane_after(p, hh, dt))(#[trigger] s0.planes[i]) {
                Some(b) => (|p: Plane| in_field(p.position) && p.bomb_spawn_timer.wf())(b),
                None => true,
            } by {
                lemma_travel_nonneg(s0.planes[i].movement_speed, dt);
            }
            lemma_filter_map_keeps(
                s0.planes,
                |p: Plane| plane_after(p, hh, dt),
                |p: Plane| in_field(p.position) && p.bomb_spawn_timer.wf(),
            );
            if s0.planes.len() == 0 {
                assert(advance_planes(s0.planes, hh, dt) =~= seq![]);
            }
        }
        if self.run_if_planes() {
            plane_update(&mut self.planes, h, dt);
        }
        assert(self.planes@ == advance_planes(s0.planes, hh, dt));

        proof {
            assert forall|i: int| 0 <= i < s0.bombs.len() && (#[trigger] s0.bombs[i]).position.y > -BOMB_MARGIN
                implies fits(s0.bombs[i].position.y - travel(s0.bombs[i].falling_speed, dt)) by {
                lemma_travel_nonneg(s0.bombs[i].falling_speed, dt);
            }
            assert forall|i: int| 0 <= i < s0.bombs.len() implies match (|b: Bomb| bomb_after(b, dt))(#[trigger] s0.bombs[i]) {
                Some(b) => (|b: Bomb| in_field(b.position))(b),
                None => true,
            } by {
                lemma_travel_nonneg(s0.bombs[i].falling_speed, dt);
            }
            lemma_filter_map_keeps(s0.bombs, |b: Bomb| bomb_after(b, dt), |b: Bomb| in_field(b.position));
            if s0.bombs.len() == 0 {
                assert(advance_bombs(s0.bombs, dt) =~= seq![]);
            }
        }
        if self.run_if_bombs() {
            update_bombs(&mut self.bombs, dt);
        }
        assert(self.bombs@ == advance_bombs(s0.bombs, dt));

        self.plane_spawn_timer_update(dt);
        bomb_spawn_timer_update(&mut self.planes, dt);
        let ghost ticked = self.planes@;
        proof {
            assert forall|i: int| 0 <= i < ticked.len() implies match (|p: Plane|
                if p.bomb_spawn_timer.finished {
                    Some(dropped_bomb(p))
                } else {
                    None
                })(#[trigger] ticked[i]) {
                Some(b) => (|b: Bomb| in_field(b.position))(b),
                None => true,
            } by {}
            lemma_filter_map_keeps(
                ticked,
                |p: Plane|
                    if p.bomb_spawn_timer.finished {
                        Some(dropped_bomb(p))
                    } else {
                        None
                    },
                |b: Bomb| in_field(b.position),
            );
        }
        spawn_bombs(&self.planes, &mut self.bombs);
        fire_rocket(&self.player, &mut self.rockets, input.fire);
        spawn_planes(&self.plane_spawn_timer, &mut self.planes, self.screen);
        assert(self@ =~= a);
        assert(self@.wf());
        if self.run_if_rockets_and_planes() {
            let ghost rs = self.rockets@;
            let ghost ps = self.planes@;
            let report = rocket_collision(&self.player, &mut self.rockets, &mut self.planes);
            proof {
                assert forall|i: int| 0 <= i < rs.len() implies match (|r: Rocket|
                    if rocket_struck(r, ps) {
                        None
                    } else {
                        Some(r)
                    })(#[trigger] rs[i]) {
                    Some(b) => (|r: Rocket| in_field(r.position))(b),
                    None => true,
                } by {}
                lemma_filter_map_keeps(
                    rs,
                    |r: Rocket|
                        if rocket_struck(r, ps) {
                            None
                        } else {
                            Some(r)
                        },
                    |r: Rocket| in_field(r.position),
                );
                assert forall|i: int| 0 <= i < ps.len() implies match (|p: Plane|
                    if plane_struck(p, rs) {
                        None
                    } else {
                        Some(p)
                    })(#[trigger] ps[i]) {
                    Some(b) => (|p: Plane| in_field(p.position) && p.bomb_spawn_timer.wf())(b),
                    None => true,
                } by {}
                lemma_filter_map_keeps(
                    ps,
                    |p: Plane|
                        if plane_struck(p, rs) {
                            None
                        } else {
                            Some(p)
                        },
                    |p: Plane| in_field(p.position) && p.bomb_spawn_timer.wf(),
                );
            }
            report
        } else {
            CollisionReport { sides: Vec::new(), notifications: Vec::new() }
        }
    }
}

} // verus!

verus! {

proof fn lemma_filter_map_keeps<A, B>(s: Seq<A>, f: spec_fn(A) -> Option<B>, q: spec_fn(B) -> bool)
    requires
        forall|i: int|
            0 <= i < s.len() ==> match #[trigger] f(s[i]) {
                Some(b) => q(b),
                None => true,
            },
    ensures
        forall|k: int| 0 <= k < s.filter_map(f).len() ==> q(#[trigger] s.filter_map(f)[k]),
    decreases s.len(),
{
    if s.len() > 0 {
        let rest = s.drop_last();
        assert(rest.len() == s.len() - 1);
        assert forall|i: int| 0 <= i < rest.len() implies match #[trigger] f(rest[i]) {
            Some(b) => q(b),
            None => true,
        } by {
            assert(rest[i] == s[i]);
        }
        lemma_filter_map_keeps(rest, f, q);
        let r = rest.filter_map(f);
        assert(f(s[s.len() - 1]) == f(s.last()));
        assert forall|k: int| 0 <= k < s.filter_map(f).len() implies q(#[trigger] s.filter_map(f)[k]) by {
            if k < r.len() {
                assert(s.filter_map(f)[k] == r[k]);
            }
        }
    }
}


} // verus!
