//! Motion integration: forward motion along the current heading, and a
//! bounded turn toward the desired direction.

use vstd::prelude::*;
use crate::boid::{BoidBundle, Spatial};
use crate::fixed::{abs_of, magnitude, trunc_div, ONE};
use crate::util::{angle_sign, signed_angle};
use crate::vector::{Vec2, Vector};

verus! {

/// What one tick does to one agent.
#[derive(Clone, Copy, Debug, PartialEq, Eq, Structural)]
pub struct Motion {
    /// The agent's position after the tick.
    pub translation: Vec2,
    /// The rotation to apply to the agent's heading, in fixed-point
    /// degrees, counter-clockwise where positive.
    pub rotation: i64,
}

/// How far an agent that faces along `up` moves in `dt` at `speed`, each
/// component rounded toward zero.
pub open spec fn displacement(up: Vector, speed: int, dt: int) -> Vector {
    Vector {
        x: trunc_div(up.x * speed * dt, ONE * ONE),
        y: trunc_div(up.y * speed * dt, ONE * ONE),
    }
}

/// The angle covered in `dt` at `turn_rate`, rounded down.
pub open spec fn turn_step(turn_rate: int, dt: int) -> int {
    (turn_rate * dt) / (ONE as int)
}

/// The rotation of one tick: a full turn step toward `desired` wherever the
/// angle between the heading and `desired` is not zero, and none where the
/// agent already faces that way or wants no direction. Only the direction
/// of `desired` counts, not its length.
pub open spec fn rotation(up: Vector, desired: Vector, turn_rate: int, dt: int) -> int {
    if angle_sign(up, desired) > 0 {
        turn_step(turn_rate, dt)
    } else if angle_sign(up, desired) < 0 {
        -turn_step(turn_rate, dt)
    } else {
        0
    }
}

/// The rotation of one tick for `boid`, which wants to face along the sum
/// of the two steering vectors it holds.
pub open spec fn steering(boid: BoidBundle, dt: int) -> int {
    rotation(
        boid.spatial.up@,
        boid.follow_velocity.0@.plus(boid.avoid_velocity.0@),
        boid.turn_rate.0 as int,
        dt,
    )
}

/// The position of `boid` after one tick.
pub open spec fn moved(boid: BoidBundle, dt: int) -> Vector {
    boid.position().plus(displacement(boid.spatial.up@, boid.speed.0 as int, dt))
}

/// Neither component of a direction exceeds [`ONE`] by more than one unit.
pub proof fn lemma_direction_bounds(v: Vector)
    requires
        v.is_direction(),
    ensures
        abs_of(v.x) <= ONE + 1,
        abs_of(v.y) <= ONE + 1,
{
    assert(abs_of(v.x) <= ONE + 1 && abs_of(v.y) <= ONE + 1) by (nonlinear_arith)
        requires
            v.x * v.x + v.y * v.y <= (ONE + 1) * (ONE + 1),
    ;
}

/// Returns one component of the displacement.
fn advance_component(component: i64, speed: u32, dt: u32) -> (d: i64)
    requires
        abs_of(component as int) <= ONE + 1,
    ensures
        d == trunc_div(component * speed * dt, ONE * ONE),
        abs_of(d as int) <= 20_000_000_000_000,
{
    let m: u128 = magnitude(component) as u128;
    assert(0 <= speed * dt <= 0xffff_ffff * 0xffff_ffff) by (nonlinear_arith)
        requires
            0 <= speed <= 0xffff_ffff,
            0 <= dt <= 0xffff_ffff,
    ;
    let rate: u128 = speed as u128 * dt as u128;
    assert(0 <= m * rate <= 1_000_001 * rate) by (nonlinear_arith)
        requires
            0 <= m <= 1_000_001,
            0 <= rate,
    ;
    let q: u128 = (m * rate) / 1_000_000_000_000;
    assert(m * rate == abs_of(component * speed * dt)) by (nonlinear_arith)
        requires
            m == abs_of(component as int),
            rate == speed * dt,
            0 <= speed,
            0 <= dt,
    ;
    assert(component >= 0 ==> component * speed * dt >= 0) by (nonlinear_arith)
        requires
            0 <= speed,
            0 <= dt,
    ;
    assert(component < 0 ==> component * speed * dt <= 0) by (nonlinear_arith)
        requires
            0 <= speed,
            0 <= dt,
    ;
    if component >= 0 {
        q as i64
    } else {
        -(q as i64)
    }
}

/// Returns the angle covered in `dt` at `turn_rate`.
fn turn_amount(turn_rate: u32, dt: u32) -> (a: i64)
    ensures
        a == turn_step(turn_rate as int, dt as int),
        0 <= a,
{
    assert(0 <= turn_rate * dt <= 0xffff_ffff * 0xffff_ffff) by (nonlinear_arith)
        requires
            0 <= turn_rate <= 0xffff_ffff,
            0 <= dt <= 0xffff_ffff,
    ;
    let covered: u64 = (turn_rate as u64 * dt as u64) / 1_000_000;
    covered as i64
}

/// Moves an agent forward along the heading it has before the tick, and
/// tells how far to turn it toward the direction it wants to face.
pub fn advance(boid: &BoidBundle, dt: u32) -> (m: Motion)
    requires
        boid.wf(),
    ensures
        m.translation@ == moved(*boid, dt as int),
        m.rotation == steering(*boid, dt as int),
{
    let up: Vec2 = boid.spatial.up;
    let follow: Vec2 = boid.follow_velocity.0;
    let avoid: Vec2 = boid.avoid_velocity.0;
    proof {
        lemma_direction_bounds(up@);
        lemma_direction_bounds(follow@);
        lemma_direction_bounds(avoid@);
    }
    let dx: i64 = advance_component(up.x, boid.speed.0, dt);
    let dy: i64 = advance_component(up.y, boid.speed.0, dt);
    let here: Vec2 = boid.spatial.translation;
    let translation = Vec2 { x: here.x + dx, y: here.y + dy };
    let desired = Vec2 { x: follow.x + avoid.x, y: follow.y + avoid.y };
    let sign: i64 = signed_angle(up, desired);
    let step: i64 = turn_amount(boid.turn_rate.0, dt);
    let rotation: i64 = if sign > 0 {
        step
    } else if sign < 0 {
        -step
    } else {
        0
    };
    Motion { translation, rotation }
}

/// Moves every agent forward along the heading it has before the tick, and
/// returns, agent by agent, how far to turn each toward the direction it
/// wants to face.
pub fn update_position(boids: &mut Vec<BoidBundle>, dt: u32) -> (rotations: Vec<i64>)
    requires
        forall|i: int| 0 <= i < old(boids)@.len() ==> (#[trigger] old(boids)@[i]).wf(),
    ensures
        final(boids)@.len() == old(boids)@.len(),
        rotations@.len() == old(boids)@.len(),
        forall|i: int|
            0 <= i < old(boids)@.len() ==> (#[trigger] final(boids)@[i]).position() == moved(
                old(boids)@[i],
                dt as int,
            ) && final(boids)@[i] == (BoidBundle {
                spatial: Spatial {
                    translation: final(boids)@[i].spatial.translation,
                    ..old(boids)@[i].spatial
                },
                ..old(boids)@[i]
            }),
        forall|i: int|
            0 <= i < old(boids)@.len() ==> #[trigger] rotations@[i] == steering(
                old(boids)@[i],
                dt as int,
            ),
{
    let n: usize = boids.len();
    let mut rotations: Vec<i64> = Vec::new();
    let mut i: usize = 0;
    while i < n
        invariant
            n == boids@.len(),
            n == old(boids)@.len(),
            i <= n,
            rotations@.len() == i,
            forall|k: int| 0 <= k < n ==> (#[trigger] old(boids)@[k]).wf(),
            forall|k: int|
                0 <= k < i ==> (#[trigger] boids@[k]).position() == moved(
                    old(boids)@[k],
                    dt as int,
                ) && boids@[k] == (BoidBundle {
                    spatial: Spatial {
                        translation: boids@[k].spatial.translation,
                        ..old(boids)@[k].spatial
                    },
                    ..old(boids)@[k]
                }),
            forall|k: int|
                0 <= k < i ==> #[trigger] rotations@[k] == steering(old(boids)@[k], dt as int),
            forall|k: int| i <= k < n ==> boids@[k] == old(boids)@[k],
        decreases n - i,
    {
        let mut boid: BoidBundle = boids[i];
        assert(boid == old(boids)@[i as int]);
        let motion: Motion = advance(&boid, dt);
        boid.spatial.translation = motion.translation;
        boids.set(i, boid);
        rotations.push(motion.rotation);
        i += 1;
    }
    rotations
}

} // verus!
