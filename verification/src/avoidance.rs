//! Neighbour avoidance: each agent's direction away from the agents that are
//! closer than its avoidance radius.

use vstd::prelude::*;
use crate::boid::{positions, AvoidVelocity, BoidBundle};
use crate::fixed::{abs_of, NORMALIZE_LIMIT};
use crate::vector::{Vec2, Vector};

verus! {

/// `other` is strictly closer to `me` than `radius`.
pub open spec fn repels(me: Vector, other: Vector, radius: int) -> bool {
    me.dist_sq(other) < radius * radius
}

/// The sum of `positions[me] - positions[j]` over every `j < upto` other than
/// `me` that repels agent `me`.
pub open spec fn repulsion(positions: Seq<Vector>, me: int, radius: int, upto: int) -> Vector
    decreases upto,
{
    if upto <= 0 {
        Vector::zero()
    } else {
        let rest = repulsion(positions, me, radius, upto - 1);
        let other = upto - 1;
        if other != me && repels(positions[me], positions[other], radius) {
            rest.plus(positions[me].minus(positions[other]))
        } else {
            rest
        }
    }
}

/// The direction in which agent `me` avoids its neighbours: the unit vector
/// along the whole repulsion, or zero where that sum is zero.
pub open spec fn avoid_direction(positions: Seq<Vector>, me: int, radius: int) -> Vector {
    repulsion(positions, me, radius, positions.len() as int).unit()
}

/// The repulsion that any agent can collect stays small enough to
/// normalize.
pub open spec fn can_avoid(boids: Seq<BoidBundle>) -> bool {
    forall|i: int|
        0 <= i < boids.len() ==> boids.len() * (#[trigger] boids[i]).avoidance.radius
            <= NORMALIZE_LIMIT
}

/// An agent that repels is closer than the radius along each axis.
pub proof fn lemma_repels_bounds(me: Vector, other: Vector, radius: int)
    requires
        0 <= radius,
        repels(me, other, radius),
    ensures
        abs_of(me.x - other.x) < radius,
        abs_of(me.y - other.y) < radius,
{
    let dx = me.x - other.x;
    let dy = me.y - other.y;
    assert(abs_of(dx) < radius && abs_of(dy) < radius) by (nonlinear_arith)
        requires
            0 <= radius,
            dx * dx + dy * dy < radius * radius,
    ;
}

/// Tells whether `other` is strictly closer to `me` than `radius`.
pub fn within_radius(me: Vec2, other: Vec2, radius: u32) -> (b: bool)
    ensures
        b == repels(me@, other@, radius as int),
{
    let dx: i128 = me.x as i128 - other.x as i128;
    let dy: i128 = me.y as i128 - other.y as i128;
    let r: i128 = radius as i128;
    if dx >= r || dx <= -r || dy >= r || dy <= -r {
        proof {
            if repels(me@, other@, radius as int) {
                lemma_repels_bounds(me@, other@, radius as int);
            }
        }
        return false;
    }
    assert(0 <= dx * dx <= r * r && 0 <= dy * dy <= r * r && r * r <= 0xffff_ffff * 0xffff_ffff)
        by (nonlinear_arith)
        requires
            -r < dx < r,
            -r < dy < r,
            0 <= r <= 0xffff_ffff,
    ;
    dx * dx + dy * dy < r * r
}

/// Returns the sum of `position(me) - position(j)` over every other agent
/// `j` that is strictly closer to agent `me` than its avoidance radius.
pub fn repulsion_sum(boids: &Vec<BoidBundle>, me: usize) -> (sum: Vec2)
    requires
        me < boids@.len(),
        boids@.len() * boids@[me as int].avoidance.radius <= NORMALIZE_LIMIT,
    ensures
        sum@ == repulsion(
            positions(boids@),
            me as int,
            boids@[me as int].avoidance.radius as int,
            boids@.len() as int,
        ),
        sum@.normalizable(),
{
    let n: usize = boids.len();
    let here: Vec2 = boids[me].spatial.translation;
    let radius: u32 = boids[me].avoidance.radius;
    let ghost places = positions(boids@);
    let mut sum = Vec2 { x: 0, y: 0 };
    let mut j: usize = 0;
    while j < n
        invariant
            n == boids@.len(),
            me < n,
            j <= n,
            here == boids@[me as int].spatial.translation,
            radius == boids@[me as int].avoidance.radius,
            places == positions(boids@),
            n * radius <= NORMALIZE_LIMIT,
            sum@ == repulsion(places, me as int, radius as int, j as int),
            abs_of(sum.x as int) <= j * radius,
            abs_of(sum.y as int) <= j * radius,
        decreases n - j,
    {
        let there: Vec2 = boids[j].spatial.translation;
        assert(places[j as int] == there@);
        assert(places[me as int] == here@);
        assert((j + 1) * radius == j * radius + radius && (j + 1) * radius <= n * radius)
            by (nonlinear_arith)
            requires
                0 <= j < n,
                0 <= radius,
        ;
        if j != me && within_radius(here, there, radius) {
            proof {
                lemma_repels_bounds(here@, there@, radius as int);
            }
            sum = Vec2 { x: sum.x + (here.x - there.x), y: sum.y + (here.y - there.y) };
        }
        j += 1;
    }
    sum
}

/// Returns the direction in which agent `me` avoids its neighbours.
pub fn avoid_velocity(boids: &Vec<BoidBundle>, me: usize) -> (v: AvoidVelocity)
    requires
        me < boids@.len(),
        boids@.len() * boids@[me as int].avoidance.radius <= NORMALIZE_LIMIT,
    ensures
        v.0@ == avoid_direction(
            positions(boids@),
            me as int,
            boids@[me as int].avoidance.radius as int,
        ),
        v.0@.is_direction(),
{
    AvoidVelocity(repulsion_sum(boids, me).normalize_or_zero())
}

/// Points every agent's avoid velocity away from the agents that are
/// strictly closer than its avoidance radius. All positions are read as they
/// were when the call began.
pub fn update_avoidance(boids: &mut Vec<BoidBundle>)
    requires
        can_avoid(old(boids)@),
    ensures
        final(boids)@.len() == old(boids)@.len(),
        forall|i: int|
            0 <= i < old(boids)@.len() ==> (#[trigger] final(boids)@[i]).avoid_velocity.0@
                == avoid_direction(
                positions(old(boids)@),
                i,
                old(boids)@[i].avoidance.radius as int,
            ) && final(boids)@[i] == (BoidBundle {
                avoid_velocity: final(boids)@[i].avoid_velocity,
                ..old(boids)@[i]
            }),
{
    let n: usize = boids.len();
    let mut i: usize = 0;
    while i < n
        invariant
            n == boids@.len(),
            n == old(boids)@.len(),
            i <= n,
            can_avoid(old(boids)@),
            forall|k: int|
                0 <= k < i ==> (#[trigger] boids@[k]).avoid_velocity.0@ == avoid_direction(
                    positions(old(boids)@),
                    k,
                    old(boids)@[k].avoidance.radius as int,
                ) && boids@[k] == (BoidBundle {
                    avoid_velocity: boids@[k].avoid_velocity,
                    ..old(boids)@[k]
                }),
            forall|k: int| i <= k < n ==> boids@[k] == old(boids)@[k],
        decreases n - i,
    {
        assert(positions(boids@) =~= positions(old(boids)@)) by {
            assert forall|k: int| 0 <= k < n implies boids@[k].position() == old(
                boids,
            )@[k].position() by {
                if k < i {
                    assert(boids@[k] == (BoidBundle {
                        avoid_velocity: boids@[k].avoid_velocity,
                        ..old(boids)@[k]
                    }));
                }
            }
        }
        assert(boids@[i as int] == old(boids)@[i as int]);
        let velocity: AvoidVelocity = avoid_velocity(boids, i);
        let mut boid: BoidBundle = boids[i];
        boid.avoid_velocity = velocity;
        boids.set(i, boid);
        i += 1;
    }
}

} // verus!
