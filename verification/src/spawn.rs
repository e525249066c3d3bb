//! The starting population: default agents at random positions.

use vstd::prelude::*;
use crate::boid::{default_boid, Avoidance, BoidBundle, FollowTarget, Spatial};
use crate::schedule::{can_tick, can_tick_one};
use crate::fixed::{NORMALIZE_LIMIT, ONE, WORLD_LIMIT};
use crate::vector::{Vec2, Vector};

verus! {

/// Number of agents at the start.
pub const POPULATION: usize = 100;

/// Radius of an agent's body, in fixed-point units.
pub const COLLIDER_RADIUS: u32 = 10_000_000;

/// Half the side of the square that the agents start in, in fixed-point
/// units.
pub const SPAWN_EXTENT: i64 = 300_000_000;

/// The agent that starts at `position` with a body of `collider_radius`: a
/// default agent whose avoidance radius is twice that of its body.
pub open spec fn spawned(position: Vec2, collider_radius: u32) -> BoidBundle {
    BoidBundle {
        avoidance: Avoidance { radius: (2 * collider_radius) as u32 },
        spatial: Spatial { translation: position, ..default_boid().spatial },
        ..default_boid()
    }
}

/// `position` lies in the square of half-side `extent` around the origin,
/// the upper edges left out.
pub open spec fn in_square(position: Vector, extent: int) -> bool {
    -extent <= position.x < extent && -extent <= position.y < extent
}

/// Draws an integer from `low..high` with `rand::Rng::gen_range` on the
/// thread's generator `rand::thread_rng()`. The draw differs from call to
/// call; all that is claimed, and not proved, is that it lies in the range.
/// An empty range is left out because `gen_range` panics on it. The
/// generator itself panics where the operating system cannot seed it.
#[verifier::external_body]
fn random_between(low: i64, high: i64) -> (r: i64)
    requires
        low < high,
    ensures
        low <= r < high,
{
    rand::Rng::gen_range(&mut rand::thread_rng(), low..high)
}

/// Draws a position from the square of half-side `extent` around the
/// origin.
pub fn random_position(extent: i64) -> (p: Vec2)
    requires
        0 < extent,
    ensures
        in_square(p@, extent as int),
{
    let x: i64 = random_between(-extent, extent);
    let y: i64 = random_between(-extent, extent);
    Vec2 { x, y }
}

/// Makes the agent that starts at `position` with a body of
/// `collider_radius`.
pub fn spawn_boid(position: Vec2, collider_radius: u32) -> (b: BoidBundle)
    requires
        2 * collider_radius <= u32::MAX,
    ensures
        b == spawned(position, collider_radius),
{
    let mut b: BoidBundle = BoidBundle::default();
    b.avoidance = Avoidance { radius: collider_radius * 2 };
    b.spatial.translation = position;
    b
}

/// Makes `count` agents, each at a random position of the square of
/// half-side `extent` around the origin.
pub fn spawn(count: usize, extent: i64, collider_radius: u32) -> (boids: Vec<BoidBundle>)
    requires
        0 < extent,
        2 * collider_radius <= u32::MAX,
    ensures
        boids@.len() == count,
        forall|i: int|
            0 <= i < count ==> (#[trigger] boids@[i]) == spawned(
                boids@[i].spatial.translation,
                collider_radius,
            ) && in_square(boids@[i].position(), extent as int),
{
    let mut boids: Vec<BoidBundle> = Vec::new();
    let mut i: usize = 0;
    while i < count
        invariant
            i <= count,
            0 < extent,
            2 * collider_radius <= u32::MAX,
            boids@.len() == i,
            forall|k: int|
                0 <= k < i ==> (#[trigger] boids@[k]) == spawned(
                    boids@[k].spatial.translation,
                    collider_radius,
                ) && in_square(boids@[k].position(), extent as int),
        decreases count - i,
    {
        let position: Vec2 = random_position(extent);
        boids.push(spawn_boid(position, collider_radius));
        i += 1;
    }
    boids
}

/// Makes the starting world: one target at the origin, and [`POPULATION`]
/// agents with bodies of [`COLLIDER_RADIUS`] at random positions within
/// [`SPAWN_EXTENT`] of the origin along each axis.
pub fn setup() -> (world: (Vec<FollowTarget>, Vec<BoidBundle>))
    ensures
        world.0@.len() == 1,
        world.0@[0].0@ == Vector::zero(),
        world.1@.len() == POPULATION,
        forall|i: int|
            0 <= i < POPULATION ==> (#[trigger] world.1@[i]) == spawned(
                world.1@[i].spatial.translation,
                COLLIDER_RADIUS,
            ) && in_square(world.1@[i].position(), SPAWN_EXTENT as int),
        can_tick(world.0@, world.1@),
{
    let mut targets: Vec<FollowTarget> = Vec::new();
    targets.push(FollowTarget(Vec2 { x: 0, y: 0 }));
    let boids: Vec<BoidBundle> = spawn(POPULATION, SPAWN_EXTENT, COLLIDER_RADIUS);
    assert forall|i: int| 0 <= i < boids@.len() implies can_tick_one(
        targets@,
        boids@,
        #[trigger] boids@[i],
    ) by {
        assert(boids@[i] == spawned(boids@[i].spatial.translation, COLLIDER_RADIUS));
        assert(in_square(boids@[i].position(), SPAWN_EXTENT as int));
        assert(SPAWN_EXTENT <= WORLD_LIMIT);
        assert(boids@[i].spatial.up@.norm_sq() <= (ONE + 1) * (ONE + 1)) by (nonlinear_arith)
            requires
                boids@[i].spatial.up@.x == 0,
                boids@[i].spatial.up@.y == ONE,
        ;
    }
    (targets, boids)
}

} // verus!
