//! One tick of the simulation: the three stages, in their fixed order.

use vstd::prelude::*;
use crate::avoidance::{avoid_direction, repulsion, update_avoidance};
use crate::boid::{positions, BoidBundle, FollowTarget, Spatial};
use crate::fixed::NORMALIZE_LIMIT;
use crate::follow::{follow_direction, update_follow};
use crate::motion::{displacement, rotation, update_position};
use crate::vector::{lemma_unit_is_direction, Vector};

verus! {

/// The follow velocity that agent `i` holds after the first stage: the
/// direction toward the one target, or what it held before where there is
/// no target or more than one.
pub open spec fn followed(targets: Seq<FollowTarget>, boids: Seq<BoidBundle>, i: int) -> Vector {
    if targets.len() == 1 {
        follow_direction(targets[0].0@, boids[i].position())
    } else {
        boids[i].follow_velocity.0@
    }
}

/// The avoid velocity that agent `i` holds after the second stage.
pub open spec fn avoided(boids: Seq<BoidBundle>, i: int) -> Vector {
    avoid_direction(positions(boids), i, boids[i].avoidance.radius as int)
}

/// The rotation that one tick asks of agent `i`.
pub open spec fn turned(
    targets: Seq<FollowTarget>,
    boids: Seq<BoidBundle>,
    i: int,
    dt: int,
) -> int {
    rotation(
        boids[i].spatial.up@,
        followed(targets, boids, i).plus(avoided(boids, i)),
        boids[i].turn_rate.0 as int,
        dt,
    )
}

/// A tick can run: the one target, if there is exactly one, and every agent
/// lie inside the world; every heading is a direction; the repulsion that
/// any agent can collect stays small enough to normalize; and where the
/// follow velocities are not set anew, for want of exactly one target, they
/// are directions.
pub open spec fn can_tick(targets: Seq<FollowTarget>, boids: Seq<BoidBundle>) -> bool {
    &&& targets.len() == 1 ==> targets[0].0@.in_world()
    &&& forall|i: int| 0 <= i < boids.len() ==> can_tick_one(targets, boids, #[trigger] boids[i])
}

/// What [`can_tick`] asks of one agent of the population.
pub open spec fn can_tick_one(
    targets: Seq<FollowTarget>,
    boids: Seq<BoidBundle>,
    boid: BoidBundle,
) -> bool {
    &&& boid.position().in_world()
    &&& boid.spatial.up@.is_direction()
    &&& boids.len() * boid.avoidance.radius <= NORMALIZE_LIMIT
    &&& targets.len() != 1 ==> boid.follow_velocity.0@.is_direction()
}

/// Tells whether a tick can run.
pub fn check_tick(targets: &Vec<FollowTarget>, boids: &Vec<BoidBundle>) -> (b: bool)
    ensures
        b == can_tick(targets@, boids@),
{
    if targets.len() == 1 && !targets[0].0.is_in_world() {
        return false;
    }
    let n: usize = boids.len();
    let mut i: usize = 0;
    while i < n
        invariant
            n == boids@.len(),
            i <= n,
            forall|k: int| 0 <= k < i ==> can_tick_one(targets@, boids@, #[trigger] boids@[k]),
        decreases n - i,
    {
        let boid: BoidBundle = boids[i];
        let radius: u32 = boid.avoidance.radius;
        assert(n * radius <= 0xffff_ffff_ffff_ffff * 0xffff_ffff) by (nonlinear_arith)
            requires
                0 <= n <= 0xffff_ffff_ffff_ffff,
                0 <= radius <= 0xffff_ffff,
        ;
        let fits: bool = (n as u128) * (radius as u128) <= NORMALIZE_LIMIT as u128;
        let aimed: bool = targets.len() == 1 || boid.follow_velocity.0.is_direction();
        if !boid.spatial.translation.is_in_world() || !boid.spatial.up.is_direction() || !fits
            || !aimed {
            assert(!can_tick_one(targets@, boids@, boids@[i as int]));
            return false;
        }
        i += 1;
    }
    true
}

/// `after` is what one tick makes of agent `i`: both steering vectors are
/// set anew, the position moves along the old heading, and everything else
/// stays as it was.
pub open spec fn ticked(
    targets: Seq<FollowTarget>,
    boids: Seq<BoidBundle>,
    i: int,
    dt: int,
    after: BoidBundle,
) -> bool {
    let before = boids[i];
    &&& after.follow_velocity.0@ == followed(targets, boids, i)
    &&& after.avoid_velocity.0@ == avoided(boids, i)
    &&& after.position() == before.position().plus(
        displacement(before.spatial.up@, before.speed.0 as int, dt),
    )
    &&& after == (BoidBundle {
        follow_velocity: after.follow_velocity,
        avoid_velocity: after.avoid_velocity,
        spatial: Spatial { translation: after.spatial.translation, ..before.spatial },
        ..before
    })
}

/// Runs one tick: target following, then neighbour avoidance, then motion
/// integration. Both steering stages read the positions as they were before
/// the tick. Returns, agent by agent, the rotation to apply to its heading.
pub fn tick(targets: &Vec<FollowTarget>, boids: &mut Vec<BoidBundle>, dt: u32) -> (rotations: Vec<i64>)
    requires
        can_tick(targets@, old(boids)@),
    ensures
        final(boids)@.len() == old(boids)@.len(),
        rotations@.len() == old(boids)@.len(),
        forall|i: int|
            0 <= i < old(boids)@.len() ==> ticked(
                targets@,
                old(boids)@,
                i,
                dt as int,
                #[trigger] final(boids)@[i],
            ),
        forall|i: int|
            0 <= i < old(boids)@.len() ==> #[trigger] rotations@[i] == turned(
                targets@,
                old(boids)@,
                i,
                dt as int,
            ),
{
    let ghost before = boids@;
    update_follow(targets, boids);
    let ghost aimed = boids@;
    assert(positions(aimed) =~= positions(before)) by {
        assert forall|k: int| 0 <= k < before.len() implies aimed[k].position()
            == before[k].position() by {
            if targets@.len() == 1 {
                assert(aimed[k] == (BoidBundle {
                    follow_velocity: aimed[k].follow_velocity,
                    ..before[k]
                }));
            }
        }
    }
    assert forall|k: int| 0 <= k < aimed.len() implies aimed.len() * (#[trigger] aimed[k])
        .avoidance.radius <= NORMALIZE_LIMIT by {
        assert(can_tick_one(targets@, before, before[k]));
        if targets@.len() == 1 {
            assert(aimed[k] == (BoidBundle {
                follow_velocity: aimed[k].follow_velocity,
                ..before[k]
            }));
        }
    }
    update_avoidance(boids);
    let ghost steered = boids@;
    assert forall|k: int| 0 <= k < steered.len() implies (#[trigger] steered[k]).wf()
        && steered[k].follow_velocity.0@ == followed(targets@, before, k)
        && steered[k].avoid_velocity.0@ == avoided(before, k) && steered[k] == (BoidBundle {
        follow_velocity: steered[k].follow_velocity,
        avoid_velocity: steered[k].avoid_velocity,
        ..before[k]
    }) by {
        assert(can_tick_one(targets@, before, before[k]));
        assert(steered[k] == (BoidBundle {
            avoid_velocity: steered[k].avoid_velocity,
            ..aimed[k]
        }));
        if targets@.len() == 1 {
            assert(aimed[k] == (BoidBundle {
                follow_velocity: aimed[k].follow_velocity,
                ..before[k]
            }));
            lemma_unit_is_direction(targets@[0].0@.minus(before[k].position()));
        }
        lemma_unit_is_direction(
            repulsion(
                positions(before),
                k,
                before[k].avoidance.radius as int,
                before.len() as int,
            ),
        );
    }
    let rotations = update_position(boids, dt);
    assert forall|i: int| 0 <= i < before.len() implies ticked(
        targets@,
        before,
        i,
        dt as int,
        #[trigger] boids@[i],
    ) by {
        assert(steered[i].wf());
    }
    assert forall|i: int| 0 <= i < before.len() implies #[trigger] rotations@[i] == turned(
        targets@,
        before,
        i,
        dt as int,
    ) by {
        assert(steered[i].wf());
    }
    rotations
}

} // verus!
