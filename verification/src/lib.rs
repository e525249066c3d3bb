//! A swarm of agents that steer toward one shared target while keeping clear
//! of each other.
//!
//! Every quantity is a fixed-point integer: [`fixed::ONE`] units make one
//! whole world unit, one second or one degree. Each tick runs three stages in
//! order: target following, neighbour avoidance and motion integration.

pub mod fixed;
pub mod vector;
pub mod boid;
pub mod util;
pub mod follow;
pub mod avoidance;
pub mod motion;
pub mod schedule;
pub mod spawn;
pub mod laws;
