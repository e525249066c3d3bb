//! Planar vectors: the mathematical model, the fixed-point representation and
//! normalization.

use vstd::prelude::*;
use crate::fixed::{
    abs_of, isqrt, lemma_quadruple_div, lemma_sqrt_floor_bound, lemma_sqrt_floor_exists,
    magnitude, sqrt_floor, NORMALIZE_LIMIT, ONE, WORLD_LIMIT,
};

verus! {

/// A point or a displacement of the plane, in fixed-point units.
pub struct Vector {
    pub x: int,
    pub y: int,
}

/// The component of the unit vector, scaled by [`ONE`] and rounded to the
/// nearest unit, for a component `c` of a vector whose squared length is
/// `n`: half of the doubled quotient, rounded down, after adding one.
pub open spec fn unit_component(c: int, n: int) -> int {
    let doubled = sqrt_floor((4 * (c * c * ONE * ONE)) / n);
    let nearest = (doubled + 1) / 2;
    if c >= 0 {
        nearest
    } else {
        -nearest
    }
}

impl Vector {
    /// The zero vector.
    pub open spec fn zero() -> Vector {
        Vector { x: 0, y: 0 }
    }

    /// Componentwise sum.
    pub open spec fn plus(self, other: Vector) -> Vector {
        Vector { x: self.x + other.x, y: self.y + other.y }
    }

    /// Componentwise difference.
    pub open spec fn minus(self, other: Vector) -> Vector {
        Vector { x: self.x - other.x, y: self.y - other.y }
    }

    /// Dot product.
    pub open spec fn dot(self, other: Vector) -> int {
        self.x * other.x + self.y * other.y
    }

    /// Planar cross product: positive when `other` lies counter-clockwise
    /// of `self`.
    pub open spec fn cross(self, other: Vector) -> int {
        self.x * other.y - self.y * other.x
    }

    /// Squared length.
    pub open spec fn norm_sq(self) -> int {
        self.x * self.x + self.y * self.y
    }

    /// Squared distance to `other`.
    pub open spec fn dist_sq(self, other: Vector) -> int {
        self.minus(other).norm_sq()
    }

    /// No longer than a unit vector, up to one unit of rounding.
    pub open spec fn is_direction(self) -> bool {
        self.norm_sq() <= (ONE + 1) * (ONE + 1)
    }

    /// Both components are small enough to normalize.
    pub open spec fn normalizable(self) -> bool {
        abs_of(self.x) <= NORMALIZE_LIMIT && abs_of(self.y) <= NORMALIZE_LIMIT
    }

    /// Both coordinates lie inside the world.
    pub open spec fn in_world(self) -> bool {
        abs_of(self.x) <= WORLD_LIMIT && abs_of(self.y) <= WORLD_LIMIT
    }

    /// The unit vector along `self`, each component rounded to the nearest
    /// unit; the zero vector where `self` is zero.
    pub open spec fn unit(self) -> Vector {
        if self.norm_sq() == 0 {
            Vector::zero()
        } else {
            Vector {
                x: unit_component(self.x, self.norm_sq()),
                y: unit_component(self.y, self.norm_sq()),
            }
        }
    }
}

/// A vector of fixed-point coordinates.
#[derive(Clone, Copy, Debug, PartialEq, Eq, Structural)]
pub struct Vec2 {
    pub x: i64,
    pub y: i64,
}

impl View for Vec2 {
    type V = Vector;

    open spec fn view(&self) -> Vector {
        Vector { x: self.x as int, y: self.y as int }
    }
}

/// A unit component lies within half a unit of the true quotient: twice its
/// magnitude, less one, does not exceed twice the quotient, which stays
/// below twice its magnitude plus one.
pub proof fn lemma_unit_component_bracket(c: int, n: int)
    requires
        0 < n,
        c * c <= n,
    ensures
        abs_of(unit_component(c, n)) <= ONE,
        c >= 0 ==> unit_component(c, n) >= 0,
        c <= 0 ==> unit_component(c, n) <= 0,
        brackets(abs_of(unit_component(c, n)), c, n),
{
    let a = 4 * (c * c * ONE * ONE);
    let m = a / n;
    assert(0 <= c * c) by (nonlinear_arith);
    assert(0 <= a);
    assert(a <= n * (4 * (ONE * ONE))) by (nonlinear_arith)
        requires
            a == 4 * (c * c * ONE * ONE),
            c * c <= n,
    ;
    assert(0 <= m <= 4 * (ONE * ONE) && m * n <= a < (m + 1) * n) by (nonlinear_arith)
        requires
            m == a / n,
            0 < n,
            0 <= a <= n * (4 * (ONE * ONE)),
    ;
    lemma_sqrt_floor_exists(m);
    lemma_sqrt_floor_bound(m, 2 * ONE);
    let r = sqrt_floor(m);
    let p = (r + 1) / 2;
    assert(abs_of(unit_component(c, n)) == p);
    assert(a < (2 * p + 1) * (2 * p + 1) * n) by (nonlinear_arith)
        requires
            m + 1 <= (r + 1) * (r + 1),
            0 <= r + 1 <= 2 * p + 1,
            a < (m + 1) * n,
            0 < n,
    ;
    if p > 0 {
        assert((2 * p - 1) * (2 * p - 1) * n <= a) by (nonlinear_arith)
            requires
                r * r <= m,
                0 <= 2 * p - 1 <= r,
                m * n <= a,
                0 < n,
        ;
    }
    if c == 0 {
        assert(a == 0);
        assert(r == 0) by (nonlinear_arith)
            requires
                0 <= r,
                r * r <= m,
                m * n <= 0,
                0 < n,
                0 <= m,
        ;
    }
}

/// The magnitude `p` is the quotient of `c * ONE` by the square root of `n`,
/// rounded to the nearest unit.
pub open spec fn brackets(p: int, c: int, n: int) -> bool {
    &&& 0 <= p
    &&& p > 0 ==> (2 * p - 1) * (2 * p - 1) * n <= 4 * (c * c * ONE * ONE)
    &&& 4 * (c * c * ONE * ONE) < (2 * p + 1) * (2 * p + 1) * n
}

/// `u` is the unit vector along the nonzero vector `v`, scaled by [`ONE`],
/// each component rounded to the nearest unit: it has the signs of `v`, and
/// each component lies within half a unit of the true quotient.
pub open spec fn rounds_unit_of(u: Vector, v: Vector) -> bool {
    &&& v.x >= 0 ==> u.x >= 0
    &&& v.x <= 0 ==> u.x <= 0
    &&& v.y >= 0 ==> u.y >= 0
    &&& v.y <= 0 ==> u.y <= 0
    &&& brackets(abs_of(u.x), v.x, v.norm_sq())
    &&& brackets(abs_of(u.y), v.y, v.norm_sq())
}

/// The length of `u` is [`ONE`], give or take one unit.
pub open spec fn nearly_one(u: Vector) -> bool {
    (ONE - 1) * (ONE - 1) <= u.norm_sq() <= (ONE + 1) * (ONE + 1)
}

/// Two magnitudes that bracket the components of one nonzero vector have
/// squares that add up to `ONE * ONE`, give or take `2 * ONE - 1`.
proof fn lemma_brackets_length(p: int, q: int, x: int, y: int)
    requires
        x * x + y * y > 0,
        brackets(p, x, x * x + y * y),
        brackets(q, y, x * x + y * y),
        p <= ONE,
        q <= ONE,
    ensures
        (ONE - 1) * (ONE - 1) <= p * p + q * q <= (ONE + 1) * (ONE + 1),
{
    let n = x * x + y * y;
    let k = ONE * ONE;
    let a = 4 * (x * x * ONE * ONE);
    let b = 4 * (y * y * ONE * ONE);
    let hx = (2 * p + 1) * (2 * p + 1);
    let hy = (2 * q + 1) * (2 * q + 1);
    assert(a + b == 4 * k * n) by (nonlinear_arith)
        requires
            a == 4 * (x * x * ONE * ONE),
            b == 4 * (y * y * ONE * ONE),
            n == x * x + y * y,
            k == ONE * ONE,
    ;
    assert(0 <= a && 0 <= b) by (nonlinear_arith)
        requires
            a == 4 * (x * x * ONE * ONE),
            b == 4 * (y * y * ONE * ONE),
    ;
    // From above: the squares cannot be much smaller than ONE * ONE.
    assert(4 * k < hx + hy) by (nonlinear_arith)
        requires
            a < hx * n,
            b < hy * n,
            a + b == 4 * k * n,
            0 < n,
    ;
    assert(hx + hy == 4 * (p * p + q * q) + 4 * (p + q) + 2) by (nonlinear_arith)
        requires
            hx == (2 * p + 1) * (2 * p + 1),
            hy == (2 * q + 1) * (2 * q + 1),
    ;
    assert(k <= p * p + q * q + p + q);
    assert(p * p <= k && q * q <= k) by (nonlinear_arith)
        requires
            0 <= p <= ONE,
            0 <= q <= ONE,
            k == ONE * ONE,
    ;
    assert(0 <= p * p && 0 <= q * q) by (nonlinear_arith);
    assert(k == 1_000_000_000_000);
    // From below: nor much larger.
    if p > 0 && q > 0 {
        let lx = (2 * p - 1) * (2 * p - 1);
        let ly = (2 * q - 1) * (2 * q - 1);
        assert(lx + ly <= 4 * k) by (nonlinear_arith)
            requires
                lx * n <= a,
                ly * n <= b,
                a + b == 4 * k * n,
                0 < n,
        ;
        assert(lx + ly == 4 * (p * p + q * q) - 4 * (p + q) + 2) by (nonlinear_arith)
            requires
                lx == (2 * p - 1) * (2 * p - 1),
                ly == (2 * q - 1) * (2 * q - 1),
        ;
        assert(p * p + q * q <= k + p + q - 1);
    }
    assert(p * p + q * q <= k + 2 * ONE - 1);
    if p + q >= 2 * ONE {
        assert(p == ONE && q == ONE);
        assert(p * p + q * q == 2 * k) by (nonlinear_arith)
            requires
                p == ONE,
                q == ONE,
                k == ONE * ONE,
        ;
    }
    assert((ONE - 1) * (ONE - 1) == k - 2 * ONE + 1 && (ONE + 1) * (ONE + 1) == k + 2 * ONE + 1)
        by (nonlinear_arith)
        requires
            k == ONE * ONE,
    ;
}

/// A normalized vector is a direction, and neither of its components
/// exceeds [`ONE`].
pub proof fn lemma_unit_is_direction(v: Vector)
    ensures
        v.unit().is_direction(),
        abs_of(v.unit().x) <= ONE,
        abs_of(v.unit().y) <= ONE,
{
    if v != Vector::zero() {
        lemma_unit_of_nonzero(v);
    } else {
        assert(v.norm_sq() == 0) by (nonlinear_arith)
            requires
                v.x == 0,
                v.y == 0,
        ;
        assert(0 <= (ONE + 1) * (ONE + 1)) by (nonlinear_arith);
    }
}

/// Normalizing a nonzero vector gives the rounded unit vector along it,
/// whose length is [`ONE`], give or take one unit.
pub proof fn lemma_unit_of_nonzero(v: Vector)
    requires
        v != Vector::zero(),
    ensures
        rounds_unit_of(v.unit(), v),
        nearly_one(v.unit()),
        abs_of(v.unit().x) <= ONE,
        abs_of(v.unit().y) <= ONE,
{
    let n = v.norm_sq();
    assert(0 <= v.x * v.x && 0 <= v.y * v.y && (v.x != 0 ==> v.x * v.x > 0) && (v.y != 0 ==> v.y
        * v.y > 0)) by (nonlinear_arith);
    lemma_unit_component_bracket(v.x, n);
    lemma_unit_component_bracket(v.y, n);
    let u = v.unit();
    let p = abs_of(u.x);
    let q = abs_of(u.y);
    lemma_brackets_length(p, q, v.x, v.y);
    assert(u.x * u.x == p * p && u.y * u.y == q * q) by (nonlinear_arith)
        requires
            p == abs_of(u.x),
            q == abs_of(u.y),
    ;
}

impl Vec2 {
    /// Makes the vector `(x, y)`.
    pub fn new(x: i64, y: i64) -> (v: Vec2)
        ensures
            v.x == x,
            v.y == y,
    {
        Vec2 { x, y }
    }

    /// Makes the zero vector.
    pub fn zero() -> (v: Vec2)
        ensures
            v@ == Vector::zero(),
    {
        Vec2 { x: 0, y: 0 }
    }

    /// Tells whether both components are small enough to normalize.
    pub fn is_normalizable(&self) -> (b: bool)
        ensures
            b == self@.normalizable(),
    {
        magnitude(self.x) <= NORMALIZE_LIMIT as u64 && magnitude(self.y) <= NORMALIZE_LIMIT as u64
    }

    /// Tells whether both coordinates lie inside the world.
    pub fn is_in_world(&self) -> (b: bool)
        ensures
            b == self@.in_world(),
    {
        magnitude(self.x) <= WORLD_LIMIT as u64 && magnitude(self.y) <= WORLD_LIMIT as u64
    }

    /// Tells whether the vector is no longer than a unit vector, up to one
    /// unit of rounding.
    pub fn is_direction(&self) -> (b: bool)
        ensures
            b == self@.is_direction(),
    {
        let mx: u64 = magnitude(self.x);
        let my: u64 = magnitude(self.y);
        let limit: u64 = ONE as u64 + 1;
        if mx > limit || my > limit {
            assert(!self@.is_direction()) by (nonlinear_arith)
                requires
                    abs_of(self@.x) > ONE + 1 || abs_of(self@.y) > ONE + 1,
            ;
            return false;
        }
        assert(mx * mx <= limit * limit && my * my <= limit * limit) by (nonlinear_arith)
            requires
                mx <= limit,
                my <= limit,
        ;
        assert(mx * mx == self@.x * self@.x && my * my == self@.y * self@.y) by (nonlinear_arith)
            requires
                mx == abs_of(self@.x),
                my == abs_of(self@.y),
        ;
        mx * mx + my * my <= limit * limit
    }

    /// Normalizes the vector to length [`ONE`], each component rounded to
    /// the nearest unit. The zero vector stays zero.
    pub fn normalize_or_zero(self) -> (u: Vec2)
        requires
            self@.normalizable(),
        ensures
            u@ == self@.unit(),
            u@.is_direction(),
            self@ != Vector::zero() ==> nearly_one(u@),
    {
        let mx: u128 = magnitude(self.x) as u128;
        let my: u128 = magnitude(self.y) as u128;
        assert(mx * mx <= NORMALIZE_LIMIT * NORMALIZE_LIMIT && my * my <= NORMALIZE_LIMIT
            * NORMALIZE_LIMIT) by (nonlinear_arith)
            requires
                mx <= NORMALIZE_LIMIT,
                my <= NORMALIZE_LIMIT,
        ;
        assert(mx * mx == self@.x * self@.x && my * my == self@.y * self@.y) by (nonlinear_arith)
            requires
                mx == abs_of(self@.x),
                my == abs_of(self@.y),
        ;
        let n: u128 = mx * mx + my * my;
        proof {
            lemma_unit_is_direction(self@);
            if self@ != Vector::zero() {
                assert(self@.x != 0 || self@.y != 0);
                lemma_unit_of_nonzero(self@);
            }
        }
        if n == 0 {
            return Vec2 { x: 0, y: 0 };
        }
        let rx: i64 = nearest_part(mx, n);
        let ry: i64 = nearest_part(my, n);
        let ux: i64 = if self.x >= 0 {
            rx
        } else {
            -rx
        };
        let uy: i64 = if self.y >= 0 {
            ry
        } else {
            -ry
        };
        Vec2 { x: ux, y: uy }
    }
}

/// Returns the magnitude of the unit component for a component of magnitude
/// `m` in a vector whose squared length is `n`.
fn nearest_part(m: u128, n: u128) -> (p: i64)
    requires
        m <= NORMALIZE_LIMIT,
        0 < n <= 2 * (NORMALIZE_LIMIT * NORMALIZE_LIMIT),
        m * m <= n,
    ensures
        p == (sqrt_floor((4 * (m * m * ONE * ONE)) / (n as int)) + 1) / 2,
        0 <= p <= ONE,
{
    assert(0 <= m * m <= NORMALIZE_LIMIT * NORMALIZE_LIMIT) by (nonlinear_arith)
        requires
            0 <= m <= NORMALIZE_LIMIT,
    ;
    let scaled: u128 = m * m * 1_000_000_000_000;
    assert(scaled == m * m * ONE * ONE) by (nonlinear_arith)
        requires
            scaled == m * m * 1_000_000_000_000,
            ONE == 1_000_000,
    ;
    let whole: u128 = scaled / n;
    let rest: u128 = scaled % n;
    assert(whole <= ONE * ONE) by (nonlinear_arith)
        requires
            whole == scaled as int / n as int,
            scaled == m * m * ONE * ONE,
            m * m <= n,
            0 < n,
    ;
    let doubled: u128 = 4 * whole + (4 * rest) / n;
    proof {
        lemma_quadruple_div(scaled as int, n as int);
        assert((4 * rest) / (n as int) <= 3) by (nonlinear_arith)
            requires
                0 <= rest < n,
        ;
        assert(doubled <= (2 * ONE) * (2 * ONE)) by (nonlinear_arith)
            requires
                doubled == (4 * scaled) / (n as int),
                scaled == m * m * ONE * ONE,
                m * m <= n,
                0 < n,
        ;
        lemma_sqrt_floor_bound(doubled as int, 2 * ONE);
    }
    let root: u64 = isqrt(doubled);
    ((root + 1) / 2) as i64
}

} // verus!
