//! The steering rules: alignment, separation, cohesion and the avoidance of
//! obstacles.

use crate::config::{
    Config, COORD_LIMIT, DIRECTION_LIMIT, FORCE_LIMIT, PARAM_LIMIT, PUSH_LIMIT,
};
use crate::entities::{Bird, Obstacle};
use crate::fixed::{
    divide_toward_zero, lemma_div_toward_zero_bound, lemma_fixed_div_bound,
    lemma_fixed_mul_bound, lemma_mul_bound, lemma_signed_mul_bound, lemma_sqrt_floor_monotone,
    lemma_sqrt_floor_of_square, SCALE,
};
use crate::tools::{lemma_distance_symmetric, norm_sq, Tools};
use crate::vector::{lemma_limited, lemma_norm_bounds, Point2, Vec2, Vector2};
use vstd::math::abs;
use vstd::prelude::*;

verus! {

/// `other` is a neighbour of `me` under `radius`: it lies somewhere else, and
/// no farther away than `radius`.
pub open spec fn is_neighbour(me: Vec2, other: Vec2, radius: int) -> bool {
    let d = me.minus(other).norm_sq();
    0 < d && 0 <= radius && d <= radius * radius
}

/// The push that `me` gets from a neighbour at `other`: the direction away
/// from it, divided by the distance, so that a near neighbour pushes harder.
pub open spec fn repulsion(me: Vec2, other: Vec2) -> Vec2 {
    let away = me.minus(other);
    away.normalized().over(away.length())
}

/// The number of neighbours of `me` among the first `k` points.
pub open spec fn count_near(me: Vec2, points: Seq<Vec2>, radius: int, k: int) -> int
    decreases k,
{
    if k <= 0 {
        0
    } else if is_neighbour(me, points[k - 1], radius) {
        count_near(me, points, radius, k - 1) + 1
    } else {
        count_near(me, points, radius, k - 1)
    }
}

/// The sum of the positions of the neighbours of `me` among the first `k`
/// points.
pub open spec fn position_sum(me: Vec2, points: Seq<Vec2>, radius: int, k: int) -> Vec2
    decreases k,
{
    if k <= 0 {
        Vec2::zero()
    } else if is_neighbour(me, points[k - 1], radius) {
        position_sum(me, points, radius, k - 1).plus(points[k - 1])
    } else {
        position_sum(me, points, radius, k - 1)
    }
}

/// The sum of the pushes that `me` gets from its neighbours among the first
/// `k` points.
pub open spec fn repulsion_sum(me: Vec2, points: Seq<Vec2>, radius: int, k: int) -> Vec2
    decreases k,
{
    if k <= 0 {
        Vec2::zero()
    } else if is_neighbour(me, points[k - 1], radius) {
        repulsion_sum(me, points, radius, k - 1).plus(repulsion(me, points[k - 1]))
    } else {
        repulsion_sum(me, points, radius, k - 1)
    }
}

/// The sum of the velocities of the neighbours of `me` among the first `k`
/// birds.
pub open spec fn velocity_sum(me: Vec2, birds: Seq<Bird>, radius: int, k: int) -> Vec2
    decreases k,
{
    if k <= 0 {
        Vec2::zero()
    } else if is_neighbour(me, birds[k - 1].pos@, radius) {
        velocity_sum(me, birds, radius, k - 1).plus(birds[k - 1].vel@)
    } else {
        velocity_sum(me, birds, radius, k - 1)
    }
}

/// Where the birds are.
pub open spec fn bird_positions(birds: Seq<Bird>) -> Seq<Vec2> {
    Seq::new(birds.len(), |i: int| birds[i].pos@)
}

/// Where the obstacles are.
pub open spec fn obstacle_positions(obstacles: Seq<Obstacle>) -> Seq<Vec2> {
    Seq::new(obstacles.len(), |i: int| obstacles[i].pos@)
}

/// Every bird of the flock is small enough to compute with.
pub open spec fn flock_wf(birds: Seq<Bird>) -> bool {
    forall|i: int| 0 <= i < birds.len() ==> (#[trigger] birds[i]).wf()
}

/// Every obstacle is small enough to compute with.
pub open spec fn obstacles_wf(obstacles: Seq<Obstacle>) -> bool {
    forall|i: int| 0 <= i < obstacles.len() ==> (#[trigger] obstacles[i]).wf()
}

/// The mean of a sum over `count` neighbours, and zero where there is none.
pub open spec fn mean(sum: Vec2, count: int) -> Vec2 {
    if count > 0 {
        sum.shared_among(count)
    } else {
        Vec2::zero()
    }
}

/// The step by which a bird of velocity `vel` turns toward the direction
/// `desired`: the velocity of full speed in that direction, less the
/// velocity that the bird has, limited to `max_steering`. A direction of
/// zero asks for nothing.
pub open spec fn steering(desired: Vec2, vel: Vec2, max_speed: int, max_steering: int) -> Vec2 {
    if desired.is_zero() {
        Vec2::zero()
    } else {
        desired.normalized().times(max_speed).minus(vel).limited(max_steering)
    }
}

/// Alignment: a bird turns toward the mean velocity of its neighbours.
pub open spec fn alignment_steering(me: Bird, birds: Seq<Bird>, config: Config) -> Vec2 {
    let radius = config.alignment_view_distance as int;
    let count = count_near(me.pos@, bird_positions(birds), radius, birds.len() as int);
    let heading = mean(velocity_sum(me.pos@, birds, radius, birds.len() as int), count);
    steering(
        heading,
        me.vel@,
        config.max_speed as int,
        config.max_steering_velocity as int,
    ).times(config.alignment_modifier as int)
}

/// Separation: a bird turns away from its near neighbours, the more the
/// nearer they are.
pub open spec fn separation_steering(me: Bird, birds: Seq<Bird>, config: Config) -> Vec2 {
    let radius = config.separation_view_distance as int;
    let points = bird_positions(birds);
    let count = count_near(me.pos@, points, radius, birds.len() as int);
    let away = mean(repulsion_sum(me.pos@, points, radius, birds.len() as int), count);
    steering(
        away,
        me.vel@,
        config.max_speed as int,
        config.max_steering_velocity as int,
    ).times(config.separation_modifier as int)
}

/// Cohesion: a bird turns toward the mean position of its neighbours.
pub open spec fn cohesion_steering(me: Bird, birds: Seq<Bird>, config: Config) -> Vec2 {
    let radius = config.cohesion_view_distance as int;
    let points = bird_positions(birds);
    let count = count_near(me.pos@, points, radius, birds.len() as int);
    let toward = if count > 0 {
        position_sum(me.pos@, points, radius, birds.len() as int).shared_among(count).minus(
            me.pos@,
        )
    } else {
        Vec2::zero()
    };
    steering(
        toward,
        me.vel@,
        config.max_speed as int,
        config.max_steering_velocity as int,
    ).times(config.cohesion_modifier as int)
}

/// Avoidance: a bird turns away from the obstacles within the obstacle
/// radius, the more the nearer they are.
pub open spec fn obstacle_steering(me: Bird, obstacles: Seq<Obstacle>, config: Config) -> Vec2 {
    let radius = config.obstacle_radius as int;
    let points = obstacle_positions(obstacles);
    let count = count_near(me.pos@, points, radius, obstacles.len() as int);
    let away = mean(repulsion_sum(me.pos@, points, radius, obstacles.len() as int), count);
    steering(
        away,
        me.vel@,
        config.max_speed as int,
        config.max_steering_velocity as int,
    ).times(config.obstacle_modifier as int)
}

/// Tells whether `other` is a neighbour of `me` under `radius`.
pub fn near(me: &Point2, other: &Point2, radius: i64) -> (b: bool)
    requires
        me@.within(COORD_LIMIT as int),
        other@.within(COORD_LIMIT as int),
    ensures
        b == is_neighbour(me@, other@, radius as int),
        b ==> me@ != other@,
{
    if radius < 0 {
        return false;
    }
    proof {
        if me@ == other@ {
            assert(me@.minus(other@).norm_sq() == 0) by (nonlinear_arith)
                requires
                    me@.minus(other@).x == 0,
                    me@.minus(other@).y == 0,
                    me@.minus(other@).norm_sq() == me@.minus(other@).x * me@.minus(other@).x
                        + me@.minus(other@).y * me@.minus(other@).y,
            ;
        }
    }
    let d: u128 = norm_sq(me.x - other.x, me.y - other.y);
    let r: u128 = radius as u128;
    proof {
        lemma_mul_bound(radius as int, radius as int, i64::MAX as int, i64::MAX as int);
    }
    0 < d && d <= r * r
}

/// The push that a bird at `me` gets from a neighbour at `other`.
pub fn push_away(me: &Point2, other: &Point2) -> (push: Vector2)
    requires
        me@.within(COORD_LIMIT as int),
        other@.within(COORD_LIMIT as int),
        me@ != other@,
    ensures
        push@ == repulsion(me@, other@),
        push@.within(PUSH_LIMIT as int),
{
    let mut away: Vector2 = Tools::get_vec_from_to(*me, *other);
    let ghost direction = away@;
    proof {
        lemma_mul_bound(
            abs(away.x as int) as int,
            SCALE as int,
            DIRECTION_LIMIT as int,
            SCALE as int,
        );
        lemma_mul_bound(
            abs(away.y as int) as int,
            SCALE as int,
            DIRECTION_LIMIT as int,
            SCALE as int,
        );
        assert(direction.norm_sq() >= 1) by (nonlinear_arith)
            requires
                direction.x != 0 || direction.y != 0,
                direction.norm_sq() == direction.x * direction.x + direction.y * direction.y,
        ;
        lemma_sqrt_floor_monotone(1, direction.norm_sq());
        lemma_sqrt_floor_of_square(1);
        lemma_mul_bound(
            abs(direction.x) as int,
            abs(direction.x) as int,
            DIRECTION_LIMIT as int,
            DIRECTION_LIMIT as int,
        );
        lemma_mul_bound(
            abs(direction.y) as int,
            abs(direction.y) as int,
            DIRECTION_LIMIT as int,
            DIRECTION_LIMIT as int,
        );
        crate::fixed::lemma_abs_mul(direction.x, direction.x);
        crate::fixed::lemma_abs_mul(direction.y, direction.y);
        let reach: int = 0x4000_0000_0000;
        lemma_sqrt_floor_monotone(direction.norm_sq(), reach * reach);
        lemma_sqrt_floor_of_square(reach);
    }
    let distance: u64 = Tools::vector_length(&away);
    Tools::normalize_vector(&mut away);
    proof {
        lemma_fixed_div_bound(away.x as int, distance as int, SCALE as int);
        lemma_fixed_div_bound(away.y as int, distance as int, SCALE as int);
    }
    away.over(distance as i64)
}

/// The step by which a bird of velocity `vel` turns toward the direction
/// `desired`.
pub fn steer(desired: Vector2, vel: Vector2, max_speed: i64, max_steering: i64) -> (step: Vector2)
    requires
        desired@.within(DIRECTION_LIMIT as int),
        vel@.within(PARAM_LIMIT as int),
        0 <= max_speed <= PARAM_LIMIT,
        0 <= max_steering <= PARAM_LIMIT,
    ensures
        step@ == steering(desired@, vel@, max_speed as int, max_steering as int),
        step@.norm_sq() <= max_steering * max_steering,
        step@.within(max_steering as int),
{
    if desired.is_zero() {
        let none: Vector2 = Vector2::zero();
        assert(none@.norm_sq() <= max_steering * max_steering) by (nonlinear_arith)
            requires
                none@.norm_sq() == 0 * 0 + 0 * 0,
        ;
        return none;
    }
    let mut direction: Vector2 = desired;
    proof {
        lemma_mul_bound(
            abs(desired.x as int) as int,
            SCALE as int,
            DIRECTION_LIMIT as int,
            SCALE as int,
        );
        lemma_mul_bound(
            abs(desired.y as int) as int,
            SCALE as int,
            DIRECTION_LIMIT as int,
            SCALE as int,
        );
    }
    Tools::normalize_vector(&mut direction);
    proof {
        lemma_fixed_mul_bound(
            direction.x as int,
            max_speed as int,
            SCALE as int,
            PARAM_LIMIT as int,
        );
        lemma_fixed_mul_bound(
            direction.y as int,
            max_speed as int,
            SCALE as int,
            PARAM_LIMIT as int,
        );
    }
    let target: Vector2 = direction.times(max_speed);
    let mut step: Vector2 = target.minus(vel);
    proof {
        lemma_signed_mul_bound(
            step.x as int,
            max_steering as int,
            2 * PARAM_LIMIT,
            PARAM_LIMIT as int,
        );
        lemma_signed_mul_bound(
            step.y as int,
            max_steering as int,
            2 * PARAM_LIMIT,
            PARAM_LIMIT as int,
        );
        lemma_limited(step@, max_steering as int);
    }
    Tools::limit_vector(&mut step, max_steering);
    step
}

/// A steering step under the weight of its rule.
pub fn weighted(step: Vector2, modifier: i64) -> (force: Vector2)
    requires
        step@.within(PARAM_LIMIT as int),
        abs(modifier as int) <= PARAM_LIMIT,
    ensures
        force@ == step@.times(modifier as int),
        force@.within(FORCE_LIMIT as int),
{
    proof {
        lemma_fixed_mul_bound(
            step.x as int,
            modifier as int,
            PARAM_LIMIT as int,
            PARAM_LIMIT as int,
        );
        lemma_fixed_mul_bound(
            step.y as int,
            modifier as int,
            PARAM_LIMIT as int,
            PARAM_LIMIT as int,
        );
    }
    step.times(modifier)
}

/// The mean of a sum over `count` neighbours, and zero where there is none.
pub fn mean_of(sum_x: i128, sum_y: i128, count: usize) -> (m: Vector2)
    requires
        mean(Vec2 { x: sum_x as int, y: sum_y as int }, count as int).within(i64::MAX as int),
    ensures
        m@ == mean(Vec2 { x: sum_x as int, y: sum_y as int }, count as int),
{
    if count > 0 {
        Vector2 { x: divide_toward_zero(sum_x, count), y: divide_toward_zero(sum_y, count) }
    } else {
        Vector2::zero()
    }
}

/// The mean of a sum of `count` terms is no larger than the largest term
/// may be.
proof fn lemma_mean_bound(sum: Vec2, count: int, bound: int)
    requires
        0 <= count,
        0 <= bound,
        abs(sum.x) <= count * bound,
        abs(sum.y) <= count * bound,
    ensures
        mean(sum, count).within(bound),
{
    if count > 0 {
        lemma_div_toward_zero_bound(sum.x, count, bound);
        lemma_div_toward_zero_bound(sum.y, count, bound);
    }
}

/// Alignment: the steering of `me` toward the mean velocity of its
/// neighbours, under the weight of the rule. Without neighbours it is zero.
pub fn alignment(me: &Bird, birds: &Vec<Bird>, config: &Config) -> (force: Vector2)
    requires
        me.wf(),
        flock_wf(birds@),
        config.wf(),
    ensures
        force@ == alignment_steering(*me, birds@, *config),
        force@.within(FORCE_LIMIT as int),
{
    let radius: i64 = config.alignment_view_distance;
    let mut sum_x: i128 = 0;
    let mut sum_y: i128 = 0;
    let mut count: usize = 0;
    let mut j: usize = 0;
    while j < birds.len()
        invariant
            j <= birds.len(),
            me.wf(),
            flock_wf(birds@),
            radius == config.alignment_view_distance,
            count <= j,
            count == count_near(me.pos@, bird_positions(birds@), radius as int, j as int),
            (Vec2 { x: sum_x as int, y: sum_y as int }) == velocity_sum(
                me.pos@,
                birds@,
                radius as int,
                j as int,
            ),
            abs(sum_x as int) <= count * PARAM_LIMIT,
            abs(sum_y as int) <= count * PARAM_LIMIT,
        decreases birds.len() - j,
    {
        let other: &Bird = &birds[j];
        assert(other.wf());
        if near(&me.pos, &other.pos, radius) {
            sum_x = sum_x + other.vel.x as i128;
            sum_y = sum_y + other.vel.y as i128;
            count = count + 1;
        }
        j = j + 1;
    }
    proof {
        lemma_mean_bound(
            Vec2 { x: sum_x as int, y: sum_y as int },
            count as int,
            PARAM_LIMIT as int,
        );
    }
    let heading: Vector2 = mean_of(sum_x, sum_y, count);
    let step: Vector2 = steer(heading, me.vel, config.max_speed, config.max_steering_velocity);
    weighted(step, config.alignment_modifier)
}

/// Separation: the steering of `me` away from its near neighbours, under
/// the weight of the rule. Without neighbours it is zero.
pub fn separation(me: &Bird, birds: &Vec<Bird>, config: &Config) -> (force: Vector2)
    requires
        me.wf(),
        flock_wf(birds@),
        config.wf(),
    ensures
        force@ == separation_steering(*me, birds@, *config),
        force@.within(FORCE_LIMIT as int),
{
    let radius: i64 = config.separation_view_distance;
    let mut sum_x: i128 = 0;
    let mut sum_y: i128 = 0;
    let mut count: usize = 0;
    let mut j: usize = 0;
    while j < birds.len()
        invariant
            j <= birds.len(),
            me.wf(),
            flock_wf(birds@),
            radius == config.separation_view_distance,
            count <= j,
            count == count_near(me.pos@, bird_positions(birds@), radius as int, j as int),
            (Vec2 { x: sum_x as int, y: sum_y as int }) == repulsion_sum(
                me.pos@,
                bird_positions(birds@),
                radius as int,
                j as int,
            ),
            abs(sum_x as int) <= count * PUSH_LIMIT,
            abs(sum_y as int) <= count * PUSH_LIMIT,
        decreases birds.len() - j,
    {
        let other: &Bird = &birds[j];
        assert(other.wf());
        if near(&me.pos, &other.pos, radius) {
            let push: Vector2 = push_away(&me.pos, &other.pos);
            sum_x = sum_x + push.x as i128;
            sum_y = sum_y + push.y as i128;
            count = count + 1;
        }
        j = j + 1;
    }
    proof {
        lemma_mean_bound(
            Vec2 { x: sum_x as int, y: sum_y as int },
            count as int,
            PUSH_LIMIT as int,
        );
    }
    let away: Vector2 = mean_of(sum_x, sum_y, count);
    let step: Vector2 = steer(away, me.vel, config.max_speed, config.max_steering_velocity);
    weighted(step, config.separation_modifier)
}

/// Cohesion: the steering of `me` toward the mean position of its
/// neighbours, under the weight of the rule. Without neighbours it is zero.
pub fn cohesion(me: &Bird, birds: &Vec<Bird>, config: &Config) -> (force: Vector2)
    requires
        me.wf(),
        flock_wf(birds@),
        config.wf(),
    ensures
        force@ == cohesion_steering(*me, birds@, *config),
        force@.within(FORCE_LIMIT as int),
{
    let radius: i64 = config.cohesion_view_distance;
    let mut sum_x: i128 = 0;
    let mut sum_y: i128 = 0;
    let mut count: usize = 0;
    let mut j: usize = 0;
    while j < birds.len()
        invariant
            j <= birds.len(),
            me.wf(),
            flock_wf(birds@),
            radius == config.cohesion_view_distance,
            count <= j,
            count == count_near(me.pos@, bird_positions(birds@), radius as int, j as int),
            (Vec2 { x: sum_x as int, y: sum_y as int }) == position_sum(
                me.pos@,
                bird_positions(birds@),
                radius as int,
                j as int,
            ),
            abs(sum_x as int) <= count * COORD_LIMIT,
            abs(sum_y as int) <= count * COORD_LIMIT,
        decreases birds.len() - j,
    {
        let other: &Bird = &birds[j];
        assert(other.wf());
        if near(&me.pos, &other.pos, radius) {
            sum_x = sum_x + other.pos.x as i128;
            sum_y = sum_y + other.pos.y as i128;
            count = count + 1;
        }
        j = j + 1;
    }
    proof {
        lemma_mean_bound(
            Vec2 { x: sum_x as int, y: sum_y as int },
            count as int,
            COORD_LIMIT as int,
        );
    }
    let toward: Vector2 = if count > 0 {
        let centre: Vector2 = mean_of(sum_x, sum_y, count);
        Vector2 { x: centre.x - me.pos.x, y: centre.y - me.pos.y }
    } else {
        Vector2::zero()
    };
    let step: Vector2 = steer(toward, me.vel, config.max_speed, config.max_steering_velocity);
    weighted(step, config.cohesion_modifier)
}

/// Avoidance: the steering of `me` away from the obstacles within the
/// obstacle radius, under the weight of the rule. Without such an obstacle
/// it is zero.
pub fn obstacle_avoidance(me: &Bird, obstacles: &Vec<Obstacle>, config: &Config) -> (force:
    Vector2)
    requires
        me.wf(),
        obstacles_wf(obstacles@),
        config.wf(),
    ensures
        force@ == obstacle_steering(*me, obstacles@, *config),
        force@.within(FORCE_LIMIT as int),
{
    let radius: i64 = config.obstacle_radius;
    let mut sum_x: i128 = 0;
    let mut sum_y: i128 = 0;
    let mut count: usize = 0;
    let mut j: usize = 0;
    while j < obstacles.len()
        invariant
            j <= obstacles.len(),
            me.wf(),
            obstacles_wf(obstacles@),
            radius == config.obstacle_radius,
            count <= j,
            count == count_near(
                me.pos@,
                obstacle_positions(obstacles@),
                radius as int,
                j as int,
            ),
            (Vec2 { x: sum_x as int, y: sum_y as int }) == repulsion_sum(
                me.pos@,
                obstacle_positions(obstacles@),
                radius as int,
                j as int,
            ),
            abs(sum_x as int) <= count * PUSH_LIMIT,
            abs(sum_y as int) <= count * PUSH_LIMIT,
        decreases obstacles.len() - j,
    {
        let other: &Obstacle = &obstacles[j];
        assert(other.wf());
        if near(&me.pos, &other.pos, radius) {
            let push: Vector2 = push_away(&me.pos, &other.pos);
            sum_x = sum_x + push.x as i128;
            sum_y = sum_y + push.y as i128;
            count = count + 1;
        }
        j = j + 1;
    }
    proof {
        lemma_mean_bound(
            Vec2 { x: sum_x as int, y: sum_y as int },
            count as int,
            PUSH_LIMIT as int,
        );
    }
    let away: Vector2 = mean_of(sum_x, sum_y, count);
    let step: Vector2 = steer(away, me.vel, config.max_speed, config.max_steering_velocity);
    weighted(step, config.obstacle_modifier)
}

/// Among the first `k` points none is a neighbour of `me`: then their count
/// and all of their sums are zero.
pub proof fn lemma_no_neighbours(me: Vec2, points: Seq<Vec2>, radius: int, k: int)
    requires
        forall|i: int| 0 <= i < k ==> !is_neighbour(me, #[trigger] points[i], radius),
    ensures
        count_near(me, points, radius, k) == 0,
        position_sum(me, points, radius, k) == Vec2::zero(),
        repulsion_sum(me, points, radius, k) == Vec2::zero(),
    decreases k,
{
    if k > 0 {
        lemma_no_neighbours(me, points, radius, k - 1);
    }
}

/// A rule that finds no neighbour asks for nothing: a bird without
/// neighbours under the radius of alignment, of separation or of cohesion,
/// or without an obstacle within the obstacle radius, gets the zero vector
/// from that rule.
pub proof fn lemma_no_neighbours_no_steering(
    me: Bird,
    birds: Seq<Bird>,
    obstacles: Seq<Obstacle>,
    config: Config,
)
    ensures
        count_near(
            me.pos@,
            bird_positions(birds),
            config.alignment_view_distance as int,
            birds.len() as int,
        ) == 0 ==> alignment_steering(me, birds, config) == Vec2::zero(),
        count_near(
            me.pos@,
            bird_positions(birds),
            config.separation_view_distance as int,
            birds.len() as int,
        ) == 0 ==> separation_steering(me, birds, config) == Vec2::zero(),
        count_near(
            me.pos@,
            bird_positions(birds),
            config.cohesion_view_distance as int,
            birds.len() as int,
        ) == 0 ==> cohesion_steering(me, birds, config) == Vec2::zero(),
        count_near(
            me.pos@,
            obstacle_positions(obstacles),
            config.obstacle_radius as int,
            obstacles.len() as int,
        ) == 0 ==> obstacle_steering(me, obstacles, config) == Vec2::zero(),
{
    lemma_fixed_mul_bound(
        0,
        config.alignment_modifier as int,
        0,
        abs(config.alignment_modifier as int) as int,
    );
    lemma_fixed_mul_bound(
        0,
        config.separation_modifier as int,
        0,
        abs(config.separation_modifier as int) as int,
    );
    lemma_fixed_mul_bound(
        0,
        config.cohesion_modifier as int,
        0,
        abs(config.cohesion_modifier as int) as int,
    );
    lemma_fixed_mul_bound(
        0,
        config.obstacle_modifier as int,
        0,
        abs(config.obstacle_modifier as int) as int,
    );
}

/// A bird that has no other bird within any of the three view distances gets
/// the zero vector from alignment, from separation and from cohesion.
pub proof fn lemma_alone_no_steering(me: Bird, birds: Seq<Bird>, config: Config)
    requires
        forall|i: int|
            0 <= i < birds.len() ==> {
                let other = (#[trigger] birds[i]).pos@;
                &&& !is_neighbour(me.pos@, other, config.alignment_view_distance as int)
                &&& !is_neighbour(me.pos@, other, config.separation_view_distance as int)
                &&& !is_neighbour(me.pos@, other, config.cohesion_view_distance as int)
            },
    ensures
        alignment_steering(me, birds, config) == Vec2::zero(),
        separation_steering(me, birds, config) == Vec2::zero(),
        cohesion_steering(me, birds, config) == Vec2::zero(),
{
    let points = bird_positions(birds);
    let n = birds.len() as int;
    assert forall|i: int| 0 <= i < n implies !is_neighbour(
        me.pos@,
        #[trigger] points[i],
        config.alignment_view_distance as int,
    ) && !is_neighbour(me.pos@, points[i], config.separation_view_distance as int)
        && !is_neighbour(me.pos@, points[i], config.cohesion_view_distance as int) by {
        assert(points[i] == birds[i].pos@);
    }
    lemma_no_neighbours(me.pos@, points, config.alignment_view_distance as int, n);
    lemma_no_neighbours(me.pos@, points, config.separation_view_distance as int, n);
    lemma_no_neighbours(me.pos@, points, config.cohesion_view_distance as int, n);
    lemma_no_neighbours_no_steering(me, birds, Seq::empty(), config);
}

/// Two birds are neighbours of each other or not at all, and no bird is its
/// own neighbour.
pub proof fn lemma_neighbours(a: Vec2, b: Vec2, radius: int)
    ensures
        is_neighbour(a, b, radius) == is_neighbour(b, a, radius),
        !is_neighbour(a, a, radius),
{
    lemma_distance_symmetric(a, b);
    assert(a.minus(a).norm_sq() == 0) by (nonlinear_arith)
        requires
            a.minus(a).x == 0,
            a.minus(a).y == 0,
            a.minus(a).norm_sq() == a.minus(a).x * a.minus(a).x + a.minus(a).y * a.minus(a).y,
    ;
}

/// No rule turns a bird by more than the steering limit in one tick, however
/// strongly it pulls: before its weight is applied, the step is no longer
/// than `max_steering`.
pub proof fn lemma_steering_bounded(desired: Vec2, vel: Vec2, max_speed: int, max_steering: int)
    requires
        0 <= max_steering,
    ensures
        steering(desired, vel, max_speed, max_steering).norm_sq() <= max_steering * max_steering,
        steering(desired, vel, max_speed, max_steering).length() <= max_steering,
        steering(desired, vel, max_speed, max_steering).within(max_steering),
{
    if desired.is_zero() {
        assert(0 * 0 + 0 * 0 <= max_steering * max_steering) by (nonlinear_arith);
        lemma_norm_bounds(Vec2::zero(), max_steering);
    } else {
        lemma_limited(desired.normalized().times(max_speed).minus(vel), max_steering);
    }
}

} // verus!
