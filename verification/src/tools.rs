//! Lengths, directions and distances.

use crate::fixed::{
    isqrt, lemma_abs_mul, lemma_mul_bound, magnitude, rescale, SCALE,
};
use crate::vector::{lemma_limited, lemma_with_length, Point2, Vec2, Vector2};
use vstd::math::abs;
use vstd::prelude::*;

verus! {

/// The square of the length of `(x, y)`.
pub fn norm_sq(x: i64, y: i64) -> (n: u128)
    ensures
        n == (Vec2 { x: x as int, y: y as int }).norm_sq(),
{
    let ux: u128 = magnitude(x) as u128;
    let uy: u128 = magnitude(y) as u128;
    proof {
        lemma_abs_mul(x as int, x as int);
        lemma_abs_mul(y as int, y as int);
        lemma_mul_bound(ux as int, ux as int, 0x8000_0000_0000_0000, 0x8000_0000_0000_0000);
        lemma_mul_bound(uy as int, uy as int, 0x8000_0000_0000_0000, 0x8000_0000_0000_0000);
    }
    ux * ux + uy * uy
}

/// The vector helpers of the engine.
pub struct Tools {}

impl Tools {
    /// Gives `vec` the length one and keeps its direction. Each coordinate is
    /// rounded toward zero, so the result is no longer than one, and with one
    /// step of the grid added to each coordinate it would be longer than one.
    pub fn normalize_vector(vec: &mut Vector2)
        requires
            !old(vec)@.is_zero(),
            old(vec)@.can_rescale(SCALE as int),
        ensures
            final(vec)@ == old(vec)@.normalized(),
            final(vec)@.norm_sq() <= SCALE * SCALE,
            SCALE * SCALE < (abs(final(vec).x as int) + 1) * (abs(final(vec).x as int) + 1) + (abs(
                final(vec).y as int,
            ) + 1) * (abs(final(vec).y as int) + 1),
            final(vec)@.within(SCALE as int),
    {
        proof {
            lemma_with_length(vec@, SCALE as int);
        }
        let x: i64 = rescale(vec.x, vec.y, SCALE);
        let y: i64 = rescale(vec.y, vec.x, SCALE);
        vec.x = x;
        vec.y = y;
    }

    /// The vector that leads from `origin` to `tip`.
    pub fn get_vec_from_to(tip: Point2, origin: Point2) -> (v: Vector2)
        requires
            tip@.minus(origin@).within(i64::MAX as int),
        ensures
            v@ == tip@.minus(origin@),
    {
        Vector2 { x: tip.x - origin.x, y: tip.y - origin.y }
    }

    /// Shortens `v` to the length `max` where it is longer, and leaves it
    /// as it is where it is not.
    pub fn limit_vector(v: &mut Vector2, max: i64)
        requires
            max >= 0,
            old(v)@.can_rescale(max as int),
        ensures
            final(v)@ == old(v)@.limited(max as int),
            final(v)@.norm_sq() <= max * max,
            old(v)@.norm_sq() <= max * max ==> *final(v) == *old(v),
    {
        proof {
            lemma_limited(v@, max as int);
            lemma_mul_bound(max as int, max as int, i64::MAX as int, i64::MAX as int);
        }
        let speed_sq: u128 = norm_sq(v.x, v.y);
        let limit: u128 = max as u128;
        if speed_sq > limit * limit {
            let x: i64 = rescale(v.x, v.y, max);
            let y: i64 = rescale(v.y, v.x, max);
            v.x = x;
            v.y = y;
        }
    }

    /// The length of `vec`, rounded down.
    pub fn vector_length(vec: &Vector2) -> (len: u64)
        ensures
            len == vec@.length(),
            len * len <= vec@.norm_sq() < (len + 1) * (len + 1),
    {
        isqrt(norm_sq(vec.x, vec.y))
    }

    /// The distance between two points, rounded down.
    pub fn distance(a: &Point2, b: &Point2) -> (d: u64)
        requires
            a@.minus(b@).within(i64::MAX as int),
        ensures
            d == a@.minus(b@).length(),
            d == b@.minus(a@).length(),
            d * d <= a@.minus(b@).norm_sq() < (d + 1) * (d + 1),
    {
        proof {
            lemma_distance_symmetric(a@, b@);
        }
        isqrt(norm_sq(a.x - b.x, a.y - b.y))
    }
}

/// The distance from `a` to `b` is the distance from `b` to `a`.
pub proof fn lemma_distance_symmetric(a: Vec2, b: Vec2)
    ensures
        a.minus(b).norm_sq() == b.minus(a).norm_sq(),
        a.minus(b).length() == b.minus(a).length(),
{
    assert((a.x - b.x) * (a.x - b.x) == (b.x - a.x) * (b.x - a.x)) by (nonlinear_arith);
    assert((a.y - b.y) * (a.y - b.y) == (b.y - a.y) * (b.y - a.y)) by (nonlinear_arith);
}

} // verus!
