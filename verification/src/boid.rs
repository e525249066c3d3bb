//! The agent record and the parts it is made of.

use vstd::prelude::*;
use crate::fixed::ONE;
use crate::vector::{Vec2, Vector};

verus! {

/// Marks an agent that others keep clear of.
#[derive(Clone, Copy, Debug, PartialEq, Eq, Structural)]
pub struct Boid;

/// Forward speed, in fixed-point units per second.
#[derive(Clone, Copy, Debug, PartialEq, Eq, Structural)]
pub struct Speed(pub u32);

/// Largest angular speed, in fixed-point degrees per second.
#[derive(Clone, Copy, Debug, PartialEq, Eq, Structural)]
pub struct TurnRate(pub u32);

/// The point that every agent steers toward.
#[derive(Clone, Copy, Debug, PartialEq, Eq, Structural)]
pub struct FollowTarget(pub Vec2);

/// Marks an agent that steers toward the target.
#[derive(Clone, Copy, Debug, PartialEq, Eq, Structural)]
pub struct Follow;

/// The direction from an agent toward the target, as of the last tick with
/// exactly one target.
#[derive(Clone, Copy, Debug, PartialEq, Eq, Structural)]
pub struct FollowVelocity(pub Vec2);

/// The distance below which another agent repels this one.
#[derive(Clone, Copy, Debug, PartialEq, Eq, Structural)]
pub struct Avoidance {
    pub radius: u32,
}

/// The direction away from the agents that are too close.
#[derive(Clone, Copy, Debug, PartialEq, Eq, Structural)]
pub struct AvoidVelocity(pub Vec2);

/// Where an agent is and which way it faces.
#[derive(Clone, Copy, Debug, PartialEq, Eq, Structural)]
pub struct Spatial {
    /// Position in the world.
    pub translation: Vec2,
    /// Heading, as the unit vector that points forward.
    pub up: Vec2,
}

/// Everything that makes up one agent.
#[derive(Clone, Copy, Debug, PartialEq, Eq, Structural)]
pub struct BoidBundle {
    pub boid: Boid,
    pub speed: Speed,
    pub turn_rate: TurnRate,
    pub follow: Follow,
    pub follow_velocity: FollowVelocity,
    pub avoidance: Avoidance,
    pub avoid_velocity: AvoidVelocity,
    pub spatial: Spatial,
}

impl BoidBundle {
    /// The agent's position.
    pub open spec fn position(self) -> Vector {
        self.spatial.translation@
    }

    /// The heading and both steering vectors are directions.
    pub open spec fn steerable(self) -> bool {
        &&& self.spatial.up@.is_direction()
        &&& self.follow_velocity.0@.is_direction()
        &&& self.avoid_velocity.0@.is_direction()
    }

    /// The agent is inside the world and steerable.
    pub open spec fn wf(self) -> bool {
        self.position().in_world() && self.steerable()
    }

    /// Tells whether the agent is inside the world and steerable.
    pub fn is_wf(&self) -> (b: bool)
        ensures
            b == self.wf(),
    {
        self.spatial.translation.is_in_world() && self.spatial.up.is_direction()
            && self.follow_velocity.0.is_direction() && self.avoid_velocity.0.is_direction()
    }
}

/// The agent that every new agent starts from: at the origin, facing along
/// +Y, with a speed of 50 units per second, a turn rate of 45 degrees per
/// second, an avoidance radius of 10 units and no steering yet.
pub open spec fn default_boid() -> BoidBundle {
    BoidBundle {
        boid: Boid,
        speed: Speed(50_000_000),
        turn_rate: TurnRate(45_000_000),
        follow: Follow,
        follow_velocity: FollowVelocity(Vec2 { x: 0, y: 0 }),
        avoidance: Avoidance { radius: 10_000_000 },
        avoid_velocity: AvoidVelocity(Vec2 { x: 0, y: 0 }),
        spatial: Spatial { translation: Vec2 { x: 0, y: 0 }, up: Vec2 { x: 0, y: ONE } },
    }
}

impl Default for BoidBundle {
    /// Makes the agent that every new agent starts from.
    fn default() -> (b: BoidBundle)
        ensures
            b == default_boid(),
            b.wf(),
    {
        assert(0 * 0 + ONE * ONE <= (ONE + 1) * (ONE + 1) && 0 * 0 + 0 * 0 <= (ONE + 1) * (ONE + 1))
            by (nonlinear_arith);
        BoidBundle {
            boid: Boid,
            speed: Speed(50_000_000),
            turn_rate: TurnRate(45_000_000),
            follow: Follow,
            follow_velocity: FollowVelocity(Vec2 { x: 0, y: 0 }),
            avoidance: Avoidance { radius: 10_000_000 },
            avoid_velocity: AvoidVelocity(Vec2 { x: 0, y: 0 }),
            spatial: Spatial { translation: Vec2 { x: 0, y: 0 }, up: Vec2 { x: 0, y: ONE } },
        }
    }
}

/// The positions of a population, in order.
pub open spec fn positions(boids: Seq<BoidBundle>) -> Seq<Vector> {
    Seq::new(boids.len(), |i: int| boids[i].position())
}

} // verus!
