use vstd::prelude::*;
use crate::geometry::{Aabb, Collision, collision_of, intersects, intersects_exec, is_collision};
use crate::entities::{
    Plane, Player, Rocket, in_field, plane_box, player_box, rocket_box, plane_hit_box, player_hit_box,
    rocket_hit_box,
};

verus! {

/// What a rocket can strike: the player first, then each plane in order.
pub open spec fn collider_boxes(player: Player, planes: Seq<Plane>) -> Seq<Aabb> {
    seq![player_box(player)] + plane_boxes_of(planes)
}

/// What one collision pass reports: the side of every overlap of a rocket with
/// the player or a plane, kept as diagnostic output, and one collision
/// notification per rocket that overlaps a plane, for each such plane.
pub struct CollisionReport {
    pub sides: Vec<Collision>,
    pub notifications: Vec<Collision>,
}

/// The sides struck by a rocket with box `rb`, one per collider that it overlaps,
/// in collider order.
pub open spec fn hits_of(rb: Aabb, colliders: Seq<Aabb>) -> Seq<Collision> {
    colliders.filter_map(|c: Aabb| collision_of(rb, c))
}

/// The boxes of `planes`, in order.
pub open spec fn plane_boxes_of(planes: Seq<Plane>) -> Seq<Aabb> {
    planes.map_values(|p: Plane| plane_box(p))
}

/// The hits of every rocket in turn against `colliders`, with the side struck.
pub open spec fn all_hits(rockets: Seq<Rocket>, colliders: Seq<Aabb>) -> Seq<Collision>
    decreases rockets.len(),
{
    if rockets.len() == 0 {
        seq![]
    } else {
        all_hits(rockets.drop_last(), colliders) + hits_of(rocket_box(rockets.last()), colliders)
    }
}

/// `r` overlaps one of `planes`.
pub open spec fn rocket_struck(r: Rocket, planes: Seq<Plane>) -> bool {
    exists|j: int| 0 <= j < planes.len() && intersects(rocket_box(r), #[trigger] plane_box(planes[j]))
}

/// One of `rockets` overlaps `p`.
pub open spec fn plane_struck(p: Plane, rockets: Seq<Rocket>) -> bool {
    exists|i: int| 0 <= i < rockets.len() && intersects(#[trigger] rocket_box(rockets[i]), plane_box(p))
}

/// The rockets that struck no plane, in order.
pub open spec fn surviving_rockets(rockets: Seq<Rocket>, planes: Seq<Plane>) -> Seq<Rocket> {
    rockets.filter_map(
        |r: Rocket|
            if rocket_struck(r, planes) {
                None
            } else {
                Some(r)
            },
    )
}

/// The planes that no rocket struck, in order.
pub open spec fn surviving_planes(planes: Seq<Plane>, rockets: Seq<Rocket>) -> Seq<Plane> {
    planes.filter_map(
        |p: Plane|
            if plane_struck(p, rockets) {
                None
            } else {
                Some(p)
            },
    )
}

/// Every rocket, the player and every plane have room for their hit boxes.
pub open spec fn all_in_field(player: Player, rockets: Seq<Rocket>, planes: Seq<Plane>) -> bool {
    &&& in_field(player.position)
    &&& forall|i: int| 0 <= i < rockets.len() ==> in_field((#[trigger] rockets[i]).position)
    &&& forall|j: int| 0 <= j < planes.len() ==> in_field((#[trigger] planes[j]).position)
}

/// Whether `b` overlaps one of `boxes`.
fn overlaps_any(b: &Aabb, boxes: &Vec<Aabb>) -> (r: bool)
    requires
        b.wf(),
        forall|j: int| 0 <= j < boxes.len() ==> (#[trigger] boxes[j]).wf(),
    ensures
        r == exists|j: int| 0 <= j < boxes.len() && intersects(*b, #[trigger] boxes[j]),
{
    let mut j: usize = 0;
    while j < boxes.len()
        invariant
            j <= boxes.len(),
            b.wf(),
            forall|k: int| 0 <= k < boxes.len() ==> (#[trigger] boxes[k]).wf(),
            forall|k: int| 0 <= k < j ==> !intersects(*b, #[trigger] boxes[k]),
        decreases boxes.len() - j,
    {
        if intersects_exec(b, &boxes[j]) {
            return true;
        }
        j = j + 1;
    }
    false
}

/// Appends the side struck for each of `boxes` that `rb` overlaps.
fn append_hits(rb: &Aabb, boxes: &Vec<Aabb>, out: &mut Vec<Collision>)
    requires
        rb.wf(),
        forall|m: int| 0 <= m < boxes.len() ==> (#[trigger] boxes[m]).wf(),
    ensures
        final(out)@ == old(out)@ + hits_of(*rb, boxes@),
{
    let ghost before = out@;
    let mut k: usize = 0;
    while k < boxes.len()
        invariant
            k <= boxes.len(),
            rb.wf(),
            forall|m: int| 0 <= m < boxes.len() ==> (#[trigger] boxes[m]).wf(),
            out@ == before + hits_of(*rb, boxes@.subrange(0, k as int)),
        decreases boxes.len() - k,
    {
        assert(boxes@.subrange(0, k + 1).drop_last() =~= boxes@.subrange(0, k as int));
        match is_collision(*rb, boxes[k]) {
            Some(side) => {
                out.push(side);
                assert(out@ =~= before + hits_of(*rb, boxes@.subrange(0, k + 1)));
            },
            None => {},
        }
        k = k + 1;
    }
    assert(boxes@.subrange(0, k as int) =~= boxes@);
}

/// Tests every rocket against every collider. Each overlap, with the player or
/// a plane, gives its side in `sides`; each overlap of a rocket with a plane
/// also gives one notification. A rocket and a plane that overlap are both
/// removed, while the player, struck or not, stays. All tests read the
/// positions as they were before any removal.
pub fn rocket_collision(player: &Player, rockets: &mut Vec<Rocket>, planes: &mut Vec<Plane>) -> (report:
    CollisionReport)
    requires
        all_in_field(*player, old(rockets)@, old(planes)@),
    ensures
        report.sides@ == all_hits(old(rockets)@, collider_boxes(*player, old(planes)@)),
        report.notifications@ == all_hits(old(rockets)@, plane_boxes_of(old(planes)@)),
        final(rockets)@ == surviving_rockets(old(rockets)@, old(planes)@),
        final(planes)@ == surviving_planes(old(planes)@, old(rockets)@),
{
    let mut plane_boxes: Vec<Aabb> = Vec::new();
    let mut j: usize = 0;
    while j < planes.len()
        invariant
            j <= planes.len(),
            all_in_field(*player, rockets@, planes@),
            plane_boxes@ == planes@.subrange(0, j as int).map_values(|p: Plane| plane_box(p)),
            forall|k: int| 0 <= k < plane_boxes.len() ==> (#[trigger] plane_boxes[k]).wf(),
        decreases planes.len() - j,
    {
        let b = plane_hit_box(&planes[j]);
        plane_boxes.push(b);
        j = j + 1;
        assert(plane_boxes@ =~= planes@.subrange(0, j as int).map_values(|p: Plane| plane_box(p)));
    }
    assert(planes@.subrange(0, j as int) =~= planes@);
    let mut colliders: Vec<Aabb> = Vec::new();
    colliders.push(player_hit_box(player));
    let mut j: usize = 0;
    while j < plane_boxes.len()
        invariant
            j <= plane_boxes.len(),
            plane_boxes@ == planes@.map_values(|p: Plane| plane_box(p)),
            forall|k: int| 0 <= k < plane_boxes.len() ==> (#[trigger] plane_boxes[k]).wf(),
            colliders@ == seq![player_box(*player)] + plane_boxes@.subrange(0, j as int),
            forall|k: int| 0 <= k < colliders.len() ==> (#[trigger] colliders[k]).wf(),
        decreases plane_boxes.len() - j,
    {
        colliders.push(plane_boxes[j]);
        j = j + 1;
        assert(colliders@ =~= seq![player_box(*player)] + plane_boxes@.subrange(0, j as int));
    }
    assert(plane_boxes@.subrange(0, j as int) =~= plane_boxes@);
    assert(colliders@ == collider_boxes(*player, planes@));

    let mut rocket_boxes: Vec<Aabb> = Vec::new();
    let mut hits: Vec<Collision> = Vec::new();
    let mut notifications: Vec<Collision> = Vec::new();
    let mut i: usize = 0;
    while i < rockets.len()
        invariant
            i <= rockets.len(),
            all_in_field(*player, rockets@, planes@),
            colliders@ == collider_boxes(*player, planes@),
            forall|k: int| 0 <= k < colliders.len() ==> (#[trigger] colliders[k]).wf(),
            rocket_boxes@ == rockets@.subrange(0, i as int).map_values(|r: Rocket| rocket_box(r)),
            forall|k: int| 0 <= k < rocket_boxes.len() ==> (#[trigger] rocket_boxes[k]).wf(),
            plane_boxes@ == plane_boxes_of(planes@),
            forall|k: int| 0 <= k < plane_boxes.len() ==> (#[trigger] plane_boxes[k]).wf(),
            hits@ == all_hits(rockets@.subrange(0, i as int), colliders@),
            notifications@ == all_hits(rockets@.subrange(0, i as int), plane_boxes@),
        decreases rockets.len() - i,
    {
        let rb = rocket_hit_box(&rockets[i]);
        append_hits(&rb, &colliders, &mut hits);
        append_hits(&rb, &plane_boxes, &mut notifications);
        assert(rockets@.subrange(0, i + 1).drop_last() =~= rockets@.subrange(0, i as int));
        rocket_boxes.push(rb);
        i = i + 1;
        assert(rocket_boxes@ =~= rockets@.subrange(0, i as int).map_values(|r: Rocket| rocket_box(r)));
    }
    assert(rockets@.subrange(0, i as int) =~= rockets@);

    let mut kept_rockets: Vec<Rocket> = Vec::new();
    let mut i: usize = 0;
    while i < rockets.len()
        invariant
            i <= rockets.len(),
            rocket_boxes@ == rockets@.map_values(|r: Rocket| rocket_box(r)),
            forall|k: int| 0 <= k < rocket_boxes.len() ==> (#[trigger] rocket_boxes[k]).wf(),
            plane_boxes@ == planes@.map_values(|p: Plane| plane_box(p)),
            forall|k: int| 0 <= k < plane_boxes.len() ==> (#[trigger] plane_boxes[k]).wf(),
            kept_rockets@ == surviving_rockets(rockets@.subrange(0, i as int), planes@),
        decreases rockets.len() - i,
    {
        let struck = overlaps_any(&rocket_boxes[i], &plane_boxes);
        proof {
            let r = rockets@[i as int];
            assert(rocket_boxes@[i as int] == rocket_box(r));
            if struck {
                let j = choose|j: int|
                    0 <= j < plane_boxes.len() && intersects(rocket_boxes@[i as int], #[trigger] plane_boxes@[j]);
                assert(plane_boxes@[j] == plane_box(planes@[j]));
            } else {
                assert forall|j: int| 0 <= j < planes.len() implies !intersects(
                    rocket_box(r),
                    #[trigger] plane_box(planes@[j]),
                ) by {
                    assert(plane_boxes@[j] == plane_box(planes@[j]));
                }
            }
        }
        if !struck {
            kept_rockets.push(rockets[i]);
        }
        assert(rockets@.subrange(0, i + 1).drop_last() =~= rockets@.subrange(0, i as int));
        i = i + 1;
    }
    assert(rockets@.subrange(0, i as int) =~= rockets@);

    let mut kept_planes: Vec<Plane> = Vec::new();
    let mut j: usize = 0;
    while j < planes.len()
        invariant
            j <= planes.len(),
            rocket_boxes@ == rockets@.map_values(|r: Rocket| rocket_box(r)),
            forall|k: int| 0 <= k < rocket_boxes.len() ==> (#[trigger] rocket_boxes[k]).wf(),
            plane_boxes@ == planes@.map_values(|p: Plane| plane_box(p)),
            forall|k: int| 0 <= k < plane_boxes.len() ==> (#[trigger] plane_boxes[k]).wf(),
            kept_planes@ == surviving_planes(planes@.subrange(0, j as int), rockets@),
        decreases planes.len() - j,
    {
        let struck = overlaps_any(&plane_boxes[j], &rocket_boxes);
        proof {
            let p = planes@[j as int];
            assert(plane_boxes@[j as int] == plane_box(p));
            if struck {
                let i = choose|i: int|
                    0 <= i < rocket_boxes.len() && intersects(plane_boxes@[j as int], #[trigger] rocket_boxes@[i]);
                assert(rocket_boxes@[i] == rocket_box(rockets@[i]));
            } else {
                assert forall|i: int| 0 <= i < rockets.len() implies !intersects(
                    #[trigger] rocket_box(rockets@[i]),
                    plane_box(p),
                ) by {
                    assert(rocket_boxes@[i] == rocket_box(rockets@[i]));
                }
            }
        }
        if !struck {
            kept_planes.push(planes[j]);
        }
        assert(planes@.subrange(0, j + 1).drop_last() =~= planes@.subrange(0, j as int));
        j = j + 1;
    }
    assert(planes@.subrange(0, j as int) =~= planes@);

    *rockets = kept_rockets;
    *planes = kept_planes;
    CollisionReport { sides: hits, notifications }
}

} // verus!

verus! {

/// A rocket and a plane whose boxes overlap are both absent after the
/// collision pass.
pub proof fn lemma_struck_pair_removed(rockets: Seq<Rocket>, planes: Seq<Plane>, i: int, j: int)
    requires
        0 <= i < rockets.len(),
        0 <= j < planes.len(),
        intersects(rocket_box(rockets[i]), plane_box(planes[j])),
    ensures
        !surviving_rockets(rockets, planes).contains(rockets[i]),
        !surviving_planes(planes, rockets).contains(planes[j]),
{
    let fr = |r: Rocket|
        if rocket_struck(r, planes) {
            None
        } else {
            Some(r)
        };
    let fp = |p: Plane|
        if plane_struck(p, rockets) {
            None
        } else {
            Some(p)
        };
    assert(rocket_struck(rockets[i], planes));
    assert(plane_struck(planes[j], rockets));
    if rockets.filter_map(fr).contains(rockets[i]) {
        rockets.lemma_filter_map_contains(fr, rockets[i]);
    }
    if planes.filter_map(fp).contains(planes[j]) {
        planes.lemma_filter_map_contains(fp, planes[j]);
    }
}

} // verus!
