use jeep_shooter::collision::rocket_collision;
use jeep_shooter::entities::{
    camera_position, direction, move_player, spawn_player, Bomb, Plane, Player, Rocket, Screen,
    BOMB_SPAWN_PERIOD, BOMB_SPEED, PLANE_SPAWN_PERIOD, PLANE_SPEED, PLAYER_SPEED, ROCKET_SPEED,
};
use jeep_shooter::geometry::{is_collision, Aabb, Collision, Point, PIXEL};
use jeep_shooter::systems::{
    bomb_spawn_timer_update, fire_rocket, plane_update, rocket_update, spawn_bombs, spawn_planes,
    update_bombs,
};
use jeep_shooter::timer::Timer;
use jeep_shooter::world::{FrameInput, World};

const SECOND: u64 = 1_000_000_000;

fn px(v: i64) -> i64 {
    v * PIXEL
}

fn unit_box(x: i64, y: i64) -> Aabb {
    Aabb::new(Point::new(px(x), px(y)), Point::new(PIXEL, PIXEL))
}

fn screen() -> Screen {
    Screen { width: px(800), height: px(600) }
}

fn player_at(x: i64, y: i64) -> Player {
    Player { position: Point::new(x, y), movement_speed: PLAYER_SPEED }
}

fn plane_at(x: i64, y: i64) -> Plane {
    Plane {
        position: Point::new(x, y),
        movement_speed: PLANE_SPEED,
        bomb_spawn_timer: Timer::new(BOMB_SPAWN_PERIOD),
        number_of_bombs: 1,
    }
}

fn no_keys() -> FrameInput {
    FrameInput { left: false, right: false, fire: false }
}

#[test]
fn direction_cancels_when_both_pressed() {
    assert_eq!(direction(false, false), 0);
    assert_eq!(direction(true, false), -1);
    assert_eq!(direction(false, true), 1);
    assert_eq!(direction(true, true), 0);
}

#[test]
fn player_moves_by_speed_direction_and_time() {
    let start = px(400);
    let mut p = player_at(start, px(32));
    move_player(&mut p, false, true, SECOND / 2);
    assert_eq!(p.position.x, start + px(250));
    assert_eq!(p.position.y, px(32));
    move_player(&mut p, true, false, SECOND);
    assert_eq!(p.position.x, start - px(250));
    move_player(&mut p, true, true, SECOND);
    assert_eq!(p.position.x, start - px(250));
    move_player(&mut p, false, false, SECOND);
    assert_eq!(p.position.x, start - px(250));
    move_player(&mut p, false, true, 0);
    assert_eq!(p.position.x, start - px(250));
}

#[test]
fn player_is_not_clamped_to_the_screen() {
    let mut p = player_at(0, px(32));
    move_player(&mut p, true, false, 3 * SECOND);
    assert_eq!(p.position.x, -px(1500));
}

#[test]
fn new_player_and_camera_positions() {
    let p = spawn_player(screen());
    assert_eq!(p.position, Point::new(px(400), px(32)));
    assert_eq!(p.movement_speed, 500);
    assert_eq!(camera_position(screen()), Point::new(px(400), px(300)));
}

#[test]
fn rocket_starts_at_player_position() {
    let p = player_at(px(123), px(45));
    let mut rockets = Vec::new();
    fire_rocket(&p, &mut rockets, false);
    assert!(rockets.is_empty());
    fire_rocket(&p, &mut rockets, true);
    assert_eq!(rockets.len(), 1);
    assert_eq!(rockets[0].position, p.position);
    assert_eq!(rockets[0].movement_speed, ROCKET_SPEED);
}

#[test]
fn rocket_removed_at_top_edge_exclusive() {
    let h = px(600);
    let mut rockets = vec![
        Rocket { position: Point::new(px(10), h - 1), movement_speed: ROCKET_SPEED },
        Rocket { position: Point::new(px(20), h), movement_speed: ROCKET_SPEED },
        Rocket { position: Point::new(px(30), h + px(5)), movement_speed: ROCKET_SPEED },
    ];
    rocket_update(&mut rockets, h, SECOND / 10);
    assert_eq!(rockets.len(), 1);
    assert_eq!(rockets[0].position, Point::new(px(10), h - 1 + px(60)));
    rocket_update(&mut rockets, h, SECOND / 10);
    assert!(rockets.is_empty());
}

#[test]
fn plane_flies_left_and_bound_reads_vertical_axis() {
    let h = px(600);
    let mut planes = vec![plane_at(px(800), px(500)), plane_at(px(800), h)];
    plane_update(&mut planes, h, SECOND);
    assert_eq!(planes.len(), 1);
    assert_eq!(planes[0].position, Point::new(px(700), px(500)));
    // far past the left edge, yet kept: only the vertical coordinate is tested
    let mut far = vec![plane_at(-px(10_000), px(500))];
    plane_update(&mut far, h, SECOND);
    assert_eq!(far.len(), 1);
    assert_eq!(far[0].position.x, -px(10_100));
}

#[test]
fn bomb_falls_monotonically_then_is_removed() {
    let plane = plane_at(px(300), px(500));
    let mut ticking = vec![plane];
    bomb_spawn_timer_update(&mut ticking, BOMB_SPAWN_PERIOD);
    let mut bombs = Vec::new();
    spawn_bombs(&ticking, &mut bombs);
    assert_eq!(bombs.len(), 1);
    assert_eq!(bombs[0].position, Point::new(px(300), px(500)));
    assert_eq!(bombs[0].falling_speed, BOMB_SPEED);
    let mut last = bombs[0].position.y;
    let mut frames = 0;
    while !bombs.is_empty() {
        let before = bombs[0].position.y;
        update_bombs(&mut bombs, SECOND / 3);
        frames += 1;
        if bombs.is_empty() {
            assert!(before <= -px(16));
        } else {
            assert!(bombs[0].position.y <= last);
            assert!(bombs[0].position.y > -px(16) - px(100) / 3 - 1);
            last = bombs[0].position.y;
        }
        assert!(frames < 1000);
    }
    assert!(last <= -px(16));
}

#[test]
fn bomb_at_margin_is_removed() {
    let mut bombs = vec![
        Bomb { position: Point::new(0, -px(16)), falling_speed: BOMB_SPEED },
        Bomb { position: Point::new(0, -px(16) + 1), falling_speed: BOMB_SPEED },
    ];
    update_bombs(&mut bombs, SECOND);
    assert_eq!(bombs.len(), 1);
    assert_eq!(bombs[0].position.y, -px(16) + 1 - px(100));
}

#[test]
fn no_bomb_before_timer_runs_out() {
    let mut planes = vec![plane_at(px(300), px(500))];
    bomb_spawn_timer_update(&mut planes, BOMB_SPAWN_PERIOD - 1);
    let mut bombs = Vec::new();
    spawn_bombs(&planes, &mut bombs);
    assert!(bombs.is_empty());
}

fn pulses(period: u64, frames: &[u64]) -> usize {
    let mut t = Timer::new(period);
    let mut n = 0;
    for &d in frames {
        t.tick(d);
        if t.finished() {
            n += 1;
        }
    }
    n
}

#[test]
fn one_pulse_per_period_whatever_the_frames() {
    let t = PLANE_SPAWN_PERIOD;
    assert_eq!(pulses(t, &[t]), 1);
    assert_eq!(pulses(t, &[t / 2, t / 2]), 1);
    assert_eq!(pulses(t, &[t / 4, t / 4, t / 4, t / 4]), 1);
    assert_eq!(pulses(t, &[1, t - 1]), 1);
    assert_eq!(pulses(t, &[0, t, 0]), 1);
    assert_eq!(pulses(t, &[t - 3, 1, 1, 1]), 1);
}

#[test]
fn timer_wraps_and_pulses_for_one_tick() {
    let mut t = Timer::new(10);
    t.tick(7);
    assert!(!t.finished());
    assert_eq!(t.elapsed, 7);
    t.tick(5);
    assert!(t.finished());
    assert_eq!(t.elapsed, 2);
    t.tick(1);
    assert!(!t.finished());
    assert_eq!(t.elapsed, 3);
    t.tick(0);
    assert!(!t.finished());
    t.tick(25);
    assert!(t.finished());
    assert_eq!(t.elapsed, 8);
}

#[test]
fn plane_spawns_on_pulse_at_right_edge() {
    let mut timer = Timer::new(PLANE_SPAWN_PERIOD);
    let mut planes = Vec::new();
    timer.tick(PLANE_SPAWN_PERIOD - 1);
    spawn_planes(&timer, &mut planes, screen());
    assert!(planes.is_empty());
    timer.tick(1);
    spawn_planes(&timer, &mut planes, screen());
    assert_eq!(planes.len(), 1);
    assert_eq!(planes[0].position, Point::new(px(800), px(500)));
    assert_eq!(planes[0].movement_speed, PLANE_SPEED);
    assert_eq!(planes[0].number_of_bombs, 1);
    assert_eq!(planes[0].bomb_spawn_timer, Timer::new(BOMB_SPAWN_PERIOD));
}

#[test]
fn boxes_apart_do_not_collide() {
    assert_eq!(is_collision(unit_box(0, 0), unit_box(3, 0)), None);
    assert_eq!(is_collision(unit_box(3, 0), unit_box(0, 0)), None);
}

#[test]
fn boxes_touching_collide() {
    assert!(is_collision(unit_box(0, 0), unit_box(2, 0)).is_some());
}

#[test]
fn overlapping_boxes_with_center_inside_report_bottom() {
    // the center of each box lies inside the other, so the offset to the
    // nearest point is zero on both axes and no axis dominates
    assert_eq!(is_collision(unit_box(0, 0), unit_box(1, 0)), Some(Collision::Bottom));
    assert_eq!(is_collision(unit_box(1, 0), unit_box(0, 0)), Some(Collision::Bottom));
}

#[test]
fn collision_sides_follow_dominant_axis() {
    let small = |x: i64, y: i64| Aabb::new(Point::new(x, y), Point::new(PIXEL / 2, PIXEL / 2));
    let target = unit_box(0, 0);
    assert_eq!(is_collision(small(px(1) + PIXEL / 4, 0), target), Some(Collision::Right));
    assert_eq!(is_collision(small(-px(1) - PIXEL / 4, 0), target), Some(Collision::Left));
    assert_eq!(is_collision(small(0, px(1) + PIXEL / 4), target), Some(Collision::Top));
    assert_eq!(is_collision(small(0, -px(1) - PIXEL / 4), target), Some(Collision::Bottom));
}

#[test]
fn struck_rocket_and_plane_are_both_removed() {
    let player = player_at(px(400), px(32));
    let mut rockets = vec![
        Rocket { position: Point::new(-PIXEL / 4, 0), movement_speed: ROCKET_SPEED },
        Rocket { position: Point::new(px(200), px(200)), movement_speed: ROCKET_SPEED },
    ];
    let mut planes = vec![plane_at(px(1), 0), plane_at(px(50), px(500))];
    let report = rocket_collision(&player, &mut rockets, &mut planes);
    assert_eq!(report.sides, vec![Collision::Left]);
    assert_eq!(report.notifications, vec![Collision::Left]);
    assert_eq!(rockets.len(), 1);
    assert_eq!(rockets[0].position, Point::new(px(200), px(200)));
    assert_eq!(planes.len(), 1);
    assert_eq!(planes[0].position, Point::new(px(50), px(500)));
}

#[test]
fn rocket_hitting_player_sends_no_notification() {
    let player = player_at(px(400), px(32));
    let mut rockets = vec![Rocket { position: player.position, movement_speed: ROCKET_SPEED }];
    let mut planes = vec![plane_at(px(50), px(500))];
    let report = rocket_collision(&player, &mut rockets, &mut planes);
    assert_eq!(report.sides, vec![Collision::Bottom]);
    assert!(report.notifications.is_empty());
    assert_eq!(rockets.len(), 1);
    assert_eq!(planes.len(), 1);
}

#[test]
fn one_rocket_over_two_planes_removes_both() {
    let player = player_at(px(400), px(32));
    let mut rockets = vec![Rocket { position: Point::new(0, 0), movement_speed: ROCKET_SPEED }];
    let mut planes = vec![plane_at(px(1), 0), plane_at(-px(1), 0)];
    let report = rocket_collision(&player, &mut rockets, &mut planes);
    assert_eq!(report.sides.len(), 2);
    assert_eq!(report.notifications.len(), 2);
    assert!(rockets.is_empty());
    assert!(planes.is_empty());
}

#[test]
fn world_starts_with_player_alone() {
    let w = World::new(screen());
    assert_eq!(w.player.position, Point::new(px(400), px(32)));
    assert!(!w.run_if_rockets());
    assert!(!w.run_if_planes());
    assert!(!w.run_if_bombs());
    assert!(!w.run_if_rockets_and_planes());
}

#[test]
fn world_frames_spawn_move_and_fire() {
    let mut w = World::new(screen());
    let report = w.step(FrameInput { left: false, right: true, fire: true }, SECOND / 10);
    assert!(report.sides.is_empty());
    assert!(report.notifications.is_empty());
    assert_eq!(w.player.position.x, px(450));
    assert_eq!(w.rockets.len(), 1);
    assert_eq!(w.rockets[0].position, Point::new(px(450), px(32)));
    w.step(no_keys(), SECOND / 10);
    assert_eq!(w.rockets[0].position.y, px(92));
    assert!(w.planes.is_empty());
    let mut spawned = 0;
    for _ in 0..18 {
        w.step(no_keys(), SECOND / 10);
        if w.plane_spawn_timer.finished() {
            spawned += 1;
        }
    }
    assert_eq!(spawned, 1);
    assert_eq!(w.planes.len(), 1);
    assert_eq!(w.planes[0].position, Point::new(px(800), px(500)));
}

#[test]
fn world_drops_bombs_from_planes() {
    let mut w = World::new(screen());
    w.step(no_keys(), PLANE_SPAWN_PERIOD);
    assert_eq!(w.planes.len(), 1);
    assert!(w.bombs.is_empty());
    w.step(no_keys(), BOMB_SPAWN_PERIOD);
    assert_eq!(w.planes[0].position, Point::new(px(600), px(500)));
    assert_eq!(w.bombs.len(), 1);
    assert_eq!(w.bombs[0].position, Point::new(px(600), px(500)));
    assert_eq!(w.planes.len(), 2);
}

#[test]
fn world_collision_removes_pair_and_reports() {
    let mut w = World::new(screen());
    w.planes.push(plane_at(px(410), px(100)));
    w.rockets.push(Rocket { position: Point::new(px(400), px(40)), movement_speed: ROCKET_SPEED });
    let report = w.step(no_keys(), SECOND / 10);
    assert_eq!(report.sides, vec![Collision::Bottom]);
    assert_eq!(report.notifications, vec![Collision::Bottom]);
    assert!(w.rockets.is_empty());
    assert!(w.planes.is_empty());
    let report = w.step(no_keys(), SECOND / 10);
    assert!(report.sides.is_empty());
    assert!(report.notifications.is_empty());
}

#[test]
fn world_skips_collisions_without_planes() {
    let mut w = World::new(screen());
    let report = w.step(FrameInput { left: false, right: false, fire: true }, SECOND / 100);
    assert!(report.sides.is_empty());
    assert!(report.notifications.is_empty());
    assert_eq!(w.rockets.len(), 1);
}

#[test]
fn world_rocket_on_player_reports_side_without_notification() {
    let mut w = World::new(screen());
    w.planes.push(plane_at(px(100), px(500)));
    let report = w.step(FrameInput { left: false, right: false, fire: true }, SECOND / 100);
    assert_eq!(report.sides, vec![Collision::Bottom]);
    assert!(report.notifications.is_empty());
    assert_eq!(w.rockets.len(), 1);
    assert_eq!(w.planes.len(), 1);
}
