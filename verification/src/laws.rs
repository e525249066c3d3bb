//! What holds of the three stages, whatever the population.

use vstd::prelude::*;
use vstd::arithmetic::div_mod::lemma_fundamental_div_mod_converse;
use crate::avoidance::{avoid_direction, repels, repulsion};
use crate::boid::BoidBundle;
use crate::fixed::{abs_of, trunc_div, ONE};
use crate::follow::follow_direction;
use crate::motion::{displacement, moved, rotation, turn_step};
use crate::util::angle_sign;
use crate::vector::{lemma_unit_of_nonzero, nearly_one, rounds_unit_of, Vector};

verus! {

/// An agent away from the target follows along the unit vector that points
/// from it to the target, each component rounded to the nearest unit, and
/// that vector's length is one, give or take one unit.
pub proof fn law_follow_points_at_target(target: Vector, position: Vector)
    requires
        target != position,
    ensures
        follow_direction(target, position) == target.minus(position).unit(),
        rounds_unit_of(follow_direction(target, position), target.minus(position)),
        nearly_one(follow_direction(target, position)),
{
    lemma_unit_of_nonzero(target.minus(position));
}

/// An agent that stands on the target follows nothing.
pub proof fn law_follow_at_target_is_zero(position: Vector)
    ensures
        follow_direction(position, position) == Vector::zero(),
{
}

/// An agent exactly one radius away does not repel, from either side.
pub proof fn law_boundary_does_not_repel(me: Vector, other: Vector, radius: int)
    requires
        me.dist_sq(other) == radius * radius,
    ensures
        !repels(me, other, radius),
        !repels(other, me, radius),
        repulsion(seq![me, other], 0, radius, 2) == Vector::zero(),
        avoid_direction(seq![me, other], 0, radius) == Vector::zero(),
{
    let dx = me.x - other.x;
    let dy = me.y - other.y;
    assert((-dx) * (-dx) == dx * dx && (-dy) * (-dy) == dy * dy) by (nonlinear_arith);
    reveal_with_fuel(repulsion, 3);
    let places = seq![me, other];
    assert(places.len() == 2);
    assert(repulsion(places, 0, radius, places.len() as int) == Vector::zero());
    assert(Vector::zero().norm_sq() == 0) by (nonlinear_arith);
}

/// A lone neighbour that is closer than the radius, and elsewhere, pushes
/// the agent straight away from itself: the repulsion is the offset from the
/// neighbour to the agent, and the avoid velocity is the rounded unit vector
/// along it.
pub proof fn law_close_neighbour_repels(me: Vector, other: Vector, radius: int)
    requires
        me != other,
        me.dist_sq(other) < radius * radius,
    ensures
        repulsion(seq![me, other], 0, radius, 2) == me.minus(other),
        avoid_direction(seq![me, other], 0, radius) == me.minus(other).unit(),
        rounds_unit_of(avoid_direction(seq![me, other], 0, radius), me.minus(other)),
        nearly_one(avoid_direction(seq![me, other], 0, radius)),
{
    reveal_with_fuel(repulsion, 3);
    lemma_unit_of_nonzero(me.minus(other));
}

/// Of three neighbours, two closer than the radius and one not, exactly the
/// two close ones add to the repulsion.
pub proof fn law_only_close_neighbours_count(
    me: Vector,
    near: Vector,
    nearer: Vector,
    far: Vector,
    radius: int,
)
    requires
        repels(me, near, radius),
        repels(me, nearer, radius),
        !repels(me, far, radius),
    ensures
        repulsion(seq![me, near, nearer, far], 0, radius, 4) == me.minus(near).plus(
            me.minus(nearer),
        ),
        repulsion(seq![me, near, far, nearer], 0, radius, 4) == me.minus(near).plus(
            me.minus(nearer),
        ),
        repulsion(seq![me, far, near, nearer], 0, radius, 4) == me.minus(near).plus(
            me.minus(nearer),
        ),
{
    reveal_with_fuel(repulsion, 5);
}

/// An agent out of range may stand anywhere out of range: the repulsion of
/// agent `me` does not change.
pub proof fn law_far_agents_do_not_matter(
    positions: Seq<Vector>,
    me: int,
    radius: int,
    other: int,
    elsewhere: Vector,
    upto: int,
)
    requires
        0 <= me < positions.len(),
        0 <= other < positions.len(),
        other != me,
        upto <= positions.len(),
        !repels(positions[me], positions[other], radius),
        !repels(positions[me], elsewhere, radius),
    ensures
        repulsion(positions.update(other, elsewhere), me, radius, upto) == repulsion(
            positions,
            me,
            radius,
            upto,
        ),
    decreases upto,
{
    if upto > 0 {
        law_far_agents_do_not_matter(positions, me, radius, other, elsewhere, upto - 1);
    }
}

/// What one neighbour adds to the repulsion of an agent at `me`.
pub open spec fn contribution(me: Vector, other: Vector, radius: int) -> Vector {
    if repels(me, other, radius) {
        me.minus(other)
    } else {
        Vector::zero()
    }
}

/// Moving one other agent changes the repulsion by what that agent added
/// before and adds after, and by nothing else.
pub proof fn law_repulsion_follows_one_move(
    positions: Seq<Vector>,
    me: int,
    radius: int,
    other: int,
    elsewhere: Vector,
    upto: int,
)
    requires
        0 <= me < positions.len(),
        0 <= other < positions.len(),
        other != me,
        upto <= positions.len(),
    ensures
        repulsion(positions.update(other, elsewhere), me, radius, upto) == if other < upto {
            repulsion(positions, me, radius, upto).minus(
                contribution(positions[me], positions[other], radius),
            ).plus(contribution(positions[me], elsewhere, radius))
        } else {
            repulsion(positions, me, radius, upto)
        },
    decreases upto,
{
    if upto > 0 {
        law_repulsion_follows_one_move(positions, me, radius, other, elsewhere, upto - 1);
    }
}

/// The repulsion does not depend on the order of the other agents: two of
/// them may change places.
pub proof fn law_repulsion_ignores_order(
    positions: Seq<Vector>,
    me: int,
    radius: int,
    first: int,
    second: int,
)
    requires
        0 <= me < positions.len(),
        0 <= first < positions.len(),
        0 <= second < positions.len(),
        first != me,
        second != me,
    ensures
        repulsion(
            positions.update(first, positions[second]).update(second, positions[first]),
            me,
            radius,
            positions.len() as int,
        ) == repulsion(positions, me, radius, positions.len() as int),
        avoid_direction(
            positions.update(first, positions[second]).update(second, positions[first]),
            me,
            radius,
        ) == avoid_direction(positions, me, radius),
{
    let n = positions.len() as int;
    let half = positions.update(first, positions[second]);
    law_repulsion_follows_one_move(positions, me, radius, first, positions[second], n);
    law_repulsion_follows_one_move(half, me, radius, second, positions[first], n);
}

/// An agent with no neighbour closer than its radius avoids nothing.
pub proof fn law_no_neighbour_no_avoidance(positions: Seq<Vector>, me: int, radius: int, upto: int)
    requires
        0 <= me < positions.len(),
        upto <= positions.len(),
        forall|j: int|
            0 <= j < positions.len() && j != me ==> !repels(positions[me], #[trigger] positions[j], radius),
    ensures
        repulsion(positions, me, radius, upto) == Vector::zero(),
        upto == positions.len() ==> avoid_direction(positions, me, radius) == Vector::zero(),
    decreases upto,
{
    if upto > 0 {
        law_no_neighbour_no_avoidance(positions, me, radius, upto - 1);
    }
}

/// Forward motion goes by the heading, the speed and the position that the
/// agent has before the tick, and by nothing else: not by its steering
/// vectors, and not by the turn that the same tick asks for.
pub proof fn law_translation_ignores_steering(a: BoidBundle, b: BoidBundle, dt: int)
    requires
        a.spatial == b.spatial,
        a.speed == b.speed,
    ensures
        moved(a, dt) == moved(b, dt),
        moved(a, dt) == a.position().plus(displacement(a.spatial.up@, a.speed.0 as int, dt)),
{
}

/// One tick never turns an agent by more than its turn rate allows.
pub proof fn law_turn_is_bounded(up: Vector, desired: Vector, turn_rate: int, dt: int)
    requires
        0 <= turn_rate,
        0 <= dt,
    ensures
        abs_of(rotation(up, desired, turn_rate, dt)) <= turn_step(turn_rate, dt),
        abs_of(rotation(up, desired, turn_rate, dt)) * ONE <= turn_rate * dt,
{
    let product = turn_rate * dt;
    assert(0 <= product) by (nonlinear_arith)
        requires
            product == turn_rate * dt,
            0 <= turn_rate,
            0 <= dt,
    ;
    assert(0 <= product / (ONE as int) && (product / (ONE as int)) * ONE <= product);
}

/// Wherever the angle between the heading and the desired direction is not
/// zero, one tick turns by the whole turn step, toward the desired side;
/// where it is zero, not at all.
pub proof fn law_turn_is_a_whole_step_or_none(up: Vector, desired: Vector, turn_rate: int, dt: int)
    ensures
        angle_sign(up, desired) == 0 <==> up.cross(desired) == 0 && up.dot(desired) >= 0,
        angle_sign(up, desired) == 0 ==> rotation(up, desired, turn_rate, dt) == 0,
        angle_sign(up, desired) > 0 ==> rotation(up, desired, turn_rate, dt) == turn_step(
            turn_rate,
            dt,
        ),
        angle_sign(up, desired) < 0 ==> rotation(up, desired, turn_rate, dt) == -turn_step(
            turn_rate,
            dt,
        ),
{
}

/// The side of a turn goes by the direction of the desired vector alone:
/// stretching it changes nothing, so the sum of the steering vectors steers
/// as the exact unit vector along it would.
pub proof fn law_turn_ignores_length(up: Vector, desired: Vector, factor: int)
    requires
        0 < factor,
    ensures
        angle_sign(up, Vector { x: factor * desired.x, y: factor * desired.y }) == angle_sign(
            up,
            desired,
        ),
{
    let long = Vector { x: factor * desired.x, y: factor * desired.y };
    assert(up.cross(long) == factor * up.cross(desired)) by (nonlinear_arith)
        requires
            long.x == factor * desired.x,
            long.y == factor * desired.y,
            up.cross(long) == up.x * long.y - up.y * long.x,
            up.cross(desired) == up.x * desired.y - up.y * desired.x,
    ;
    assert(up.dot(long) == factor * up.dot(desired)) by (nonlinear_arith)
        requires
            long.x == factor * desired.x,
            long.y == factor * desired.y,
            up.dot(long) == up.x * long.x + up.y * long.y,
            up.dot(desired) == up.x * desired.x + up.y * desired.y,
    ;
    let c = up.cross(desired);
    let d = up.dot(desired);
    assert((c > 0 ==> factor * c > 0) && (c < 0 ==> factor * c < 0) && (c == 0 ==> factor * c == 0)
        && (d < 0 ==> factor * d < 0) && (d >= 0 ==> factor * d >= 0)) by (nonlinear_arith)
        requires
            0 < factor,
    ;
}

/// An agent that faces along an axis advances by exactly speed times time.
pub proof fn law_axis_heading_advances_exactly(speed: int, dt: int)
    requires
        0 <= speed,
        0 <= dt,
    ensures
        displacement(Vector { x: 0, y: ONE as int }, speed, dt) == (Vector {
            x: 0,
            y: (speed * dt) / (ONE as int),
        }),
        displacement(Vector { x: ONE as int, y: 0 }, speed, dt) == (Vector {
            x: (speed * dt) / (ONE as int),
            y: 0,
        }),
{
    let product = speed * dt;
    assert(0 <= product) by (nonlinear_arith)
        requires
            product == speed * dt,
            0 <= speed,
            0 <= dt,
    ;
    assert(ONE * speed * dt == product * ONE) by (nonlinear_arith)
        requires
            product == speed * dt,
    ;
    assert(0 * speed * dt == 0) by (nonlinear_arith);
    let q = product / (ONE as int);
    let r = product % (ONE as int);
    assert(product == q * ONE + r && 0 <= r < ONE) by (nonlinear_arith)
        requires
            q == product / (ONE as int),
            r == product % (ONE as int),
            ONE == 1_000_000,
    ;
    assert(product * ONE == q * (ONE * ONE) + r * ONE && 0 <= r * ONE < ONE * ONE)
        by (nonlinear_arith)
        requires
            product == q * ONE + r,
            0 <= r < ONE,
            ONE == 1_000_000,
    ;
    lemma_fundamental_div_mod_converse(product * ONE, ONE * ONE, q, r * ONE);
}

/// One tick never carries an agent farther than speed times time, times
/// the length of its heading: for a heading of length one, speed times time.
pub proof fn law_advance_is_bounded(up: Vector, speed: int, dt: int)
    requires
        0 <= speed,
        0 <= dt,
    ensures
        displacement(up, speed, dt).norm_sq() * ((ONE * ONE) * (ONE * ONE)) <= up.norm_sq() * ((
        speed * dt) * (speed * dt)),
{
    let k = ONE * ONE;
    let p = speed * dt;
    let d = displacement(up, speed, dt);
    assert(up.x * speed * dt == up.x * p && up.y * speed * dt == up.y * p) by (nonlinear_arith)
        requires
            p == speed * dt,
    ;
    lemma_trunc_square(up.x * p, k, d.x);
    lemma_trunc_square(up.y * p, k, d.y);
    let ax = up.x * up.x;
    let ay = up.y * up.y;
    let ex = d.x * d.x;
    let ey = d.y * d.y;
    let pp = p * p;
    let kk = k * k;
    assert((up.x * p) * (up.x * p) == ax * pp) by (nonlinear_arith)
        requires
            ax == up.x * up.x,
            pp == p * p,
    ;
    assert((up.y * p) * (up.y * p) == ay * pp) by (nonlinear_arith)
        requires
            ay == up.y * up.y,
            pp == p * p,
    ;
    assert(ex * kk == d.x * d.x * (k * k) && ey * kk == d.y * d.y * (k * k));
    assert((ex + ey) * kk <= (ax + ay) * pp) by (nonlinear_arith)
        requires
            ex * kk <= ax * pp,
            ey * kk <= ay * pp,
    ;
}

/// A quotient rounded toward zero, squared and scaled back, does not exceed
/// the square of what was divided.
proof fn lemma_trunc_square(a: int, k: int, q: int)
    requires
        0 < k,
        q == trunc_div(a, k),
    ensures
        q * q * (k * k) <= a * a,
{
    let m = abs_of(a);
    let r = m / k;
    assert(0 <= r && r * k <= m) by (nonlinear_arith)
        requires
            r == m / k,
            0 <= m,
            0 < k,
    ;
    assert(q == r || q == -r);
    assert(q * q * (k * k) == (r * k) * (r * k)) by (nonlinear_arith)
        requires
            q == r || q == -r,
    ;
    assert((r * k) * (r * k) <= m * m) by (nonlinear_arith)
        requires
            0 <= r * k <= m,
    ;
    assert(m * m == a * a) by (nonlinear_arith)
        requires
            m == a || m == -a,
    ;
}

} // verus!
