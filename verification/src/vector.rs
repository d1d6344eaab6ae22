//! Vectors and points of the plane, and their mathematical model.

use crate::fixed::{
    div_fixed, div_toward_zero, fixed_div, fixed_mul, lemma_rescaled_coordinate,
    lemma_sqrt_floor_monotone, lemma_sqrt_floor_of_square, mul_fixed, rescaled, sqrt_floor, SCALE,
};
use vstd::math::abs;
use vstd::prelude::*;

verus! {

/// A pair of fixed-point numbers with no bound on their size: what a
/// `Vector2` or a `Point2` stands for in contracts.
pub struct Vec2 {
    pub x: int,
    pub y: int,
}

impl Vec2 {
    /// The vector `(0, 0)`.
    pub open spec fn zero() -> Vec2 {
        Vec2 { x: 0, y: 0 }
    }

    pub open spec fn is_zero(self) -> bool {
        self.x == 0 && self.y == 0
    }

    pub open spec fn plus(self, other: Vec2) -> Vec2 {
        Vec2 { x: self.x + other.x, y: self.y + other.y }
    }

    pub open spec fn minus(self, other: Vec2) -> Vec2 {
        Vec2 { x: self.x - other.x, y: self.y - other.y }
    }

    /// The square of the length.
    pub open spec fn norm_sq(self) -> int {
        self.x * self.x + self.y * self.y
    }

    /// The length, rounded down.
    pub open spec fn length(self) -> int {
        sqrt_floor(self.norm_sq())
    }

    /// The vector of the same direction and of length `m`, each coordinate
    /// rounded toward zero. Only for a vector that is not zero.
    pub open spec fn with_length(self, m: int) -> Vec2 {
        Vec2 { x: rescaled(self.x, self.y, m), y: rescaled(self.y, self.x, m) }
    }

    /// The vector of the same direction and of length one.
    pub open spec fn normalized(self) -> Vec2 {
        self.with_length(SCALE as int)
    }

    /// The vector itself where it is no longer than `max`, else the vector of
    /// the same direction and of length `max`.
    pub open spec fn limited(self, max: int) -> Vec2 {
        if self.norm_sq() > max * max {
            self.with_length(max)
        } else {
            self
        }
    }

    /// The vector multiplied by the fixed-point number `k`.
    pub open spec fn times(self, k: int) -> Vec2 {
        Vec2 { x: fixed_mul(self.x, k), y: fixed_mul(self.y, k) }
    }

    /// The vector divided by the positive fixed-point number `d`.
    pub open spec fn over(self, d: int) -> Vec2 {
        Vec2 { x: fixed_div(self.x, d), y: fixed_div(self.y, d) }
    }

    /// The vector divided by the positive whole number `count`.
    pub open spec fn shared_among(self, count: int) -> Vec2 {
        Vec2 { x: div_toward_zero(self.x, count), y: div_toward_zero(self.y, count) }
    }

    /// Both coordinates lie within `bound` of zero.
    pub open spec fn within(self, bound: int) -> bool {
        abs(self.x) <= bound && abs(self.y) <= bound
    }

    /// The vector of these coordinates, where they fit.
    pub open spec fn to_vector(self) -> Vector2 {
        Vector2 { x: self.x as i64, y: self.y as i64 }
    }

    /// The point of these coordinates, where they fit.
    pub open spec fn to_point(self) -> Point2 {
        Point2 { x: self.x as i64, y: self.y as i64 }
    }

    /// The vector can be rescaled to the length `m` in 128-bit arithmetic:
    /// the product of each coordinate and `m` fits in 64 bits.
    pub open spec fn can_rescale(self, m: int) -> bool {
        &&& -u64::MAX <= self.x * m <= u64::MAX
        &&& -u64::MAX <= self.y * m <= u64::MAX
    }
}

/// A rescaled vector is no longer than asked for, and it misses the asked
/// length by less than one step of the fixed-point grid in each coordinate:
/// with one step added to each coordinate it would be too long.
pub proof fn lemma_with_length(v: Vec2, m: int)
    requires
        !v.is_zero(),
    ensures
        v.with_length(m).norm_sq() <= m * m,
        m * m < (abs(v.with_length(m).x) + 1) * (abs(v.with_length(m).x) + 1) + (abs(
            v.with_length(m).y,
        ) + 1) * (abs(v.with_length(m).y) + 1),
        v.with_length(m).within(abs(m) as int),
{
    let n = v.norm_sq();
    let a = rescaled(v.x, v.y, m);
    let b = rescaled(v.y, v.x, m);
    let a1 = abs(a) + 1;
    let b1 = abs(b) + 1;
    let mm = m * m;
    lemma_rescaled_coordinate(v.x, v.y, m);
    lemma_rescaled_coordinate(v.y, v.x, m);
    assert(n > 0) by (nonlinear_arith)
        requires
            n == v.x * v.x + v.y * v.y,
            v.x != 0 || v.y != 0,
    ;
    assert(v.y * v.y + v.x * v.x == n);
    assert((a * a + b * b) * n <= mm * n) by (nonlinear_arith)
        requires
            a * a * n <= v.x * v.x * mm,
            b * b * n <= v.y * v.y * mm,
            n == v.x * v.x + v.y * v.y,
    ;
    assert(a * a + b * b <= mm) by (nonlinear_arith)
        requires
            (a * a + b * b) * n <= mm * n,
            n > 0,
    ;
    assert(mm * n < (a1 * a1 + b1 * b1) * n) by (nonlinear_arith)
        requires
            v.x * v.x * mm < a1 * a1 * n,
            v.y * v.y * mm < b1 * b1 * n,
            n == v.x * v.x + v.y * v.y,
    ;
    assert(mm < a1 * a1 + b1 * b1) by (nonlinear_arith)
        requires
            mm * n < (a1 * a1 + b1 * b1) * n,
            n > 0,
    ;
}

/// A normalized vector has the length one, up to the rounding of its two
/// coordinates: it is no longer than one, and with one step of the grid added
/// to each coordinate it is longer than one.
pub proof fn lemma_normalized_length(v: Vec2)
    requires
        !v.is_zero(),
    ensures
        v.normalized().norm_sq() <= SCALE * SCALE,
        SCALE * SCALE < (abs(v.normalized().x) + 1) * (abs(v.normalized().x) + 1) + (abs(
            v.normalized().y,
        ) + 1) * (abs(v.normalized().y) + 1),
        v.normalized().within(SCALE as int),
{
    lemma_with_length(v, SCALE as int);
}

/// A limited vector is no longer than the limit, and a vector that is no
/// longer than the limit is left as it is.
pub proof fn lemma_limited(v: Vec2, max: int)
    requires
        max >= 0,
    ensures
        v.limited(max).norm_sq() <= max * max,
        v.limited(max).length() <= max,
        v.norm_sq() <= max * max ==> v.limited(max) == v,
        v.limited(max).within(max),
{
    let w = v.limited(max);
    if v.norm_sq() > max * max {
        assert(!v.is_zero()) by (nonlinear_arith)
            requires
                v.x * v.x + v.y * v.y > max * max,
                max >= 0,
        ;
        lemma_with_length(v, max);
    }
    lemma_norm_bounds(w, max);
}

/// A vector whose squared length is at most `bound * bound` has a length and
/// coordinates of at most `bound`.
pub proof fn lemma_norm_bounds(v: Vec2, bound: int)
    requires
        bound >= 0,
        v.norm_sq() <= bound * bound,
    ensures
        v.length() <= bound,
        v.within(bound),
{
    assert(v.norm_sq() >= 0) by (nonlinear_arith)
        requires
            v.norm_sq() == v.x * v.x + v.y * v.y,
    ;
    lemma_sqrt_floor_monotone(v.norm_sq(), bound * bound);
    lemma_sqrt_floor_of_square(bound);
    assert(abs(v.x) <= bound) by (nonlinear_arith)
        requires
            v.x * v.x + v.y * v.y <= bound * bound,
            bound >= 0,
    ;
    assert(abs(v.y) <= bound) by (nonlinear_arith)
        requires
            v.x * v.x + v.y * v.y <= bound * bound,
            bound >= 0,
    ;
}

/// A vector of the plane, in fixed-point coordinates.
#[derive(Clone, Copy, Debug, PartialEq, Eq, Structural)]
pub struct Vector2 {
    pub x: i64,
    pub y: i64,
}

impl View for Vector2 {
    type V = Vec2;

    open spec fn view(&self) -> Vec2 {
        Vec2 { x: self.x as int, y: self.y as int }
    }
}

/// A point of the plane, in fixed-point coordinates.
#[derive(Clone, Copy, Debug, PartialEq, Eq, Structural)]
pub struct Point2 {
    pub x: i64,
    pub y: i64,
}

impl View for Point2 {
    type V = Vec2;

    open spec fn view(&self) -> Vec2 {
        Vec2 { x: self.x as int, y: self.y as int }
    }
}

impl Point2 {
    pub fn new(x: i64, y: i64) -> (p: Point2)
        ensures
            p.x == x,
            p.y == y,
    {
        Point2 { x, y }
    }
}

impl Vector2 {
    pub fn new(x: i64, y: i64) -> (v: Vector2)
        ensures
            v.x == x,
            v.y == y,
    {
        Vector2 { x, y }
    }

    /// The vector `(0, 0)`.
    pub fn zero() -> (v: Vector2)
        ensures
            v@ == Vec2::zero(),
    {
        Vector2 { x: 0, y: 0 }
    }

    pub fn is_zero(&self) -> (b: bool)
        ensures
            b == self@.is_zero(),
    {
        self.x == 0 && self.y == 0
    }

    pub fn plus(self, other: Vector2) -> (v: Vector2)
        requires
            self@.plus(other@).within(i64::MAX as int),
        ensures
            v@ == self@.plus(other@),
    {
        Vector2 { x: self.x + other.x, y: self.y + other.y }
    }

    pub fn minus(self, other: Vector2) -> (v: Vector2)
        requires
            self@.minus(other@).within(i64::MAX as int),
        ensures
            v@ == self@.minus(other@),
    {
        Vector2 { x: self.x - other.x, y: self.y - other.y }
    }

    /// Tells whether both coordinates lie within `bound` of zero.
    pub fn is_within(&self, bound: i64) -> (b: bool)
        ensures
            b == self@.within(bound as int),
    {
        bound >= 0 && -bound <= self.x && self.x <= bound && -bound <= self.y && self.y <= bound
    }

    /// The vector multiplied by the fixed-point number `k`.
    pub fn times(self, k: i64) -> (v: Vector2)
        requires
            self@.times(k as int).within(i64::MAX as int),
        ensures
            v@ == self@.times(k as int),
    {
        Vector2 { x: mul_fixed(self.x, k), y: mul_fixed(self.y, k) }
    }

    /// The vector divided by the positive fixed-point number `d`.
    pub fn over(self, d: i64) -> (v: Vector2)
        requires
            d > 0,
            self@.over(d as int).within(i64::MAX as int),
        ensures
            v@ == self@.over(d as int),
    {
        Vector2 { x: div_fixed(self.x, d), y: div_fixed(self.y, d) }
    }
}

} // verus!
