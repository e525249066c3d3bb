//! The signed angle between two vectors, as far as steering reads it: its
//! sign.

use vstd::prelude::*;
use crate::vector::{Vec2, Vector};

verus! {

/// The sign of the signed angle from `a` to `b`, the angle taken in
/// `(-180, 180]` degrees and counted counter-clockwise: 1 where `b` lies
/// counter-clockwise of `a` or points exactly opposite, -1 where it lies
/// clockwise, 0 where both point the same way or one of them is zero.
pub open spec fn angle_sign(a: Vector, b: Vector) -> int {
    if a.cross(b) > 0 {
        1
    } else if a.cross(b) < 0 {
        -1
    } else if a.dot(b) < 0 {
        1
    } else {
        0
    }
}

/// Returns the signed angle from `a` to `b`, reduced to its sign: 1, -1 or 0.
pub fn signed_angle(a: Vec2, b: Vec2) -> (s: i64)
    ensures
        s == angle_sign(a@, b@),
{
    let ax: i128 = a.x as i128;
    let ay: i128 = a.y as i128;
    let bx: i128 = b.x as i128;
    let by: i128 = b.y as i128;
    let lim: i128 = 0x8000_0000_0000_0000;
    assert(-(lim * lim) <= ax * by <= lim * lim && -(lim * lim) <= ay * bx <= lim * lim && -(lim
        * lim) <= ax * bx <= lim * lim && -(lim * lim) <= ay * by <= lim * lim)
        by (nonlinear_arith)
        requires
            -lim <= ax <= lim,
            -lim <= ay <= lim,
            -lim <= bx <= lim,
            -lim <= by <= lim,
            lim >= 0,
    ;
    let left: i128 = ax * by;
    let right: i128 = ay * bx;
    if left > right {
        1
    } else if left < right {
        -1
    } else if ax * bx < -(ay * by) {
        1
    } else {
        0
    }
}

} // verus!
