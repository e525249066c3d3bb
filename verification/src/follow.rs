//! Target following: each agent's direction toward the one target.

use vstd::prelude::*;
use crate::boid::{BoidBundle, FollowTarget, FollowVelocity};
use crate::vector::{Vec2, Vector};

verus! {

/// The direction from `position` toward `target`: the unit vector along
/// their difference, or zero where they coincide.
pub open spec fn follow_direction(target: Vector, position: Vector) -> Vector {
    target.minus(position).unit()
}

/// The targets and the agents allow a follow update: where there is exactly
/// one target, it and every agent lie inside the world.
pub open spec fn can_follow(targets: Seq<FollowTarget>, boids: Seq<BoidBundle>) -> bool {
    targets.len() == 1 ==> targets[0].0@.in_world() && forall|i: int|
        0 <= i < boids.len() ==> (#[trigger] boids[i]).position().in_world()
}

/// Returns the direction from `position` toward `target`.
pub fn follow_velocity(target: Vec2, position: Vec2) -> (v: FollowVelocity)
    requires
        target@.in_world(),
        position@.in_world(),
    ensures
        v.0@ == follow_direction(target@, position@),
        v.0@.is_direction(),
{
    let offset = Vec2 { x: target.x - position.x, y: target.y - position.y };
    FollowVelocity(offset.normalize_or_zero())
}

/// Points every agent's follow velocity at the target. With no target, or
/// with more than one, nothing changes.
pub fn update_follow(targets: &Vec<FollowTarget>, boids: &mut Vec<BoidBundle>)
    requires
        can_follow(targets@, old(boids)@),
    ensures
        final(boids)@.len() == old(boids)@.len(),
        targets@.len() != 1 ==> final(boids)@ == old(boids)@,
        targets@.len() == 1 ==> forall|i: int|
            0 <= i < old(boids)@.len() ==> (#[trigger] final(boids)@[i]).follow_velocity.0@
                == follow_direction(targets@[0].0@, old(boids)@[i].position()) && final(boids)@[i]
                == (BoidBundle {
                follow_velocity: final(boids)@[i].follow_velocity,
                ..old(boids)@[i]
            }),
{
    if targets.len() != 1 {
        return ;
    }
    let target: Vec2 = targets[0].0;
    let n: usize = boids.len();
    let mut i: usize = 0;
    while i < n
        invariant
            n == boids@.len(),
            n == old(boids)@.len(),
            i <= n,
            targets@.len() == 1,
            target == targets@[0].0,
            can_follow(targets@, old(boids)@),
            forall|k: int|
                0 <= k < i ==> (#[trigger] boids@[k]).follow_velocity.0@ == follow_direction(
                    target@,
                    old(boids)@[k].position(),
                ) && boids@[k] == (BoidBundle {
                    follow_velocity: boids@[k].follow_velocity,
                    ..old(boids)@[k]
                }),
            forall|k: int| i <= k < n ==> boids@[k] == old(boids)@[k],
        decreases n - i,
    {
        let mut boid: BoidBundle = boids[i];
        assert(boid == old(boids)@[i as int]);
        boid.follow_velocity = follow_velocity(target, boid.spatial.translation);
        boids.set(i, boid);
        i += 1;
    }
}

} // verus!
