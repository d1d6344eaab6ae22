//! The order of the flock does not matter: every rule sums over the
//! neighbours of a bird, and a sum does not depend on the order of its terms.

use crate::config::Config;
use crate::entities::{Bird, Obstacle};
use crate::rules::{
    alignment_steering, bird_positions, cohesion_steering, count_near, is_neighbour,
    obstacle_positions, obstacle_steering, position_sum, repulsion, repulsion_sum,
    separation_steering, velocity_sum,
};
use crate::simulation::World;
use crate::vector::Vec2;
use vstd::prelude::*;

verus! {

/// The sum of what each of the first `k` items contributes.
pub open spec fn tally<A>(items: Seq<A>, part: spec_fn(A) -> Vec2, k: int) -> Vec2
    decreases k,
{
    if k <= 0 {
        Vec2::zero()
    } else {
        tally(items, part, k - 1).plus(part(items[k - 1]))
    }
}

/// The sum over the first `k` items depends on these items only.
pub proof fn lemma_tally_prefix<A>(items: Seq<A>, other: Seq<A>, part: spec_fn(A) -> Vec2, k: int)
    requires
        forall|i: int| 0 <= i < k ==> items[i] == other[i],
    ensures
        tally(items, part, k) == tally(other, part, k),
    decreases k,
{
    if k > 0 {
        lemma_tally_prefix(items, other, part, k - 1);
    }
}

/// The sum over all items is the sum over the items without one of them,
/// and that one added.
pub proof fn lemma_tally_remove<A>(items: Seq<A>, part: spec_fn(A) -> Vec2, i: int)
    requires
        0 <= i < items.len(),
    ensures
        tally(items, part, items.len() as int) == tally(
            items.remove(i),
            part,
            items.len() - 1,
        ).plus(part(items[i])),
    decreases items.len(),
{
    let n = items.len() as int;
    let without = items.remove(i);
    if i == n - 1 {
        lemma_tally_prefix(items, without, part, n - 1);
    } else {
        let front = items.drop_last();
        lemma_tally_prefix(items, front, part, n - 1);
        lemma_tally_remove(front, part, i);
        assert(front[i] == items[i]);
        lemma_tally_prefix(without, front.remove(i), part, n - 2);
        assert(without[n - 2] == items[n - 1]);
        let rest = tally(front.remove(i), part, n - 2);
        assert(tally(items, part, n) == rest.plus(part(items[i])).plus(part(items[n - 1])));
        assert(tally(without, part, n - 1) == rest.plus(part(items[n - 1])));
    }
}

/// Two sequences of the same items, in whatever order, have the same sum.
pub proof fn lemma_tally_permutation<A>(items: Seq<A>, other: Seq<A>, part: spec_fn(A) -> Vec2)
    requires
        items.to_multiset() == other.to_multiset(),
    ensures
        tally(items, part, items.len() as int) == tally(other, part, other.len() as int),
    decreases other.len(),
{
    broadcast use vstd::seq_lib::group_to_multiset_ensures;

    items.to_multiset_ensures();
    other.to_multiset_ensures();
    assert(items.len() == other.len());
    if other.len() > 0 {
        let n = other.len() as int;
        let last = other[n - 1];
        assert(other.contains(last));
        assert(items.to_multiset().count(last) > 0);
        assert(items.contains(last));
        let i = choose|i: int| 0 <= i < items.len() && items[i] == last;
        let front = other.drop_last();
        assert(front =~= other.remove(n - 1));
        assert(items.remove(i).to_multiset() == front.to_multiset());
        lemma_tally_permutation(items.remove(i), front, part);
        lemma_tally_remove(items, part, i);
        lemma_tally_prefix(other, front, part, n - 1);
    }
}

/// What a bird adds to the count of the neighbours of `me`: one in the
/// first coordinate, if it is a neighbour.
pub open spec fn count_part(me: Vec2, radius: int) -> spec_fn(Vec2) -> Vec2 {
    |point: Vec2|
        if is_neighbour(me, point, radius) {
            Vec2 { x: 1, y: 0 }
        } else {
            Vec2::zero()
        }
}

/// What a point adds to the sum of the positions of the neighbours of `me`.
pub open spec fn position_part(me: Vec2, radius: int) -> spec_fn(Vec2) -> Vec2 {
    |point: Vec2|
        if is_neighbour(me, point, radius) {
            point
        } else {
            Vec2::zero()
        }
}

/// What a point adds to the sum of the pushes on `me`.
pub open spec fn repulsion_part(me: Vec2, radius: int) -> spec_fn(Vec2) -> Vec2 {
    |point: Vec2|
        if is_neighbour(me, point, radius) {
            repulsion(me, point)
        } else {
            Vec2::zero()
        }
}

/// What a bird adds to the sum of the velocities of the neighbours of `me`.
pub open spec fn velocity_part(me: Vec2, radius: int) -> spec_fn(Bird) -> Vec2 {
    |bird: Bird|
        if is_neighbour(me, bird.pos@, radius) {
            bird.vel@
        } else {
            Vec2::zero()
        }
}

/// The count and the sums of the rules are tallies over the points.
pub proof fn lemma_sums_are_tallies(me: Vec2, points: Seq<Vec2>, radius: int, k: int)
    ensures
        tally(points, count_part(me, radius), k) == (Vec2 {
            x: count_near(me, points, radius, k),
            y: 0,
        }),
        tally(points, position_part(me, radius), k) == position_sum(me, points, radius, k),
        tally(points, repulsion_part(me, radius), k) == repulsion_sum(me, points, radius, k),
    decreases k,
{
    if k > 0 {
        lemma_sums_are_tallies(me, points, radius, k - 1);
    }
}

/// The sum of the neighbours' velocities is a tally over the birds.
pub proof fn lemma_velocity_sum_is_tally(me: Vec2, birds: Seq<Bird>, radius: int, k: int)
    ensures
        tally(birds, velocity_part(me, radius), k) == velocity_sum(me, birds, radius, k),
    decreases k,
{
    if k > 0 {
        lemma_velocity_sum_is_tally(me, birds, radius, k - 1);
    }
}

/// What `place` makes of each item, in the order of the items.
pub open spec fn images<A>(items: Seq<A>, place: spec_fn(A) -> Vec2) -> Seq<Vec2> {
    Seq::new(items.len(), |i: int| place(items[i]))
}

/// The images of the same items in another order are the same images in
/// another order.
pub proof fn lemma_images_permutation<A>(items: Seq<A>, other: Seq<A>, place: spec_fn(A) -> Vec2)
    requires
        items.to_multiset() == other.to_multiset(),
    ensures
        images(items, place).to_multiset() == images(other, place).to_multiset(),
    decreases other.len(),
{
    broadcast use vstd::seq_lib::group_to_multiset_ensures;

    items.to_multiset_ensures();
    other.to_multiset_ensures();
    assert(items.len() == other.len());
    if other.len() == 0 {
        assert(images(items, place) =~= images(other, place));
    } else {
        let n = other.len() as int;
        let last = other[n - 1];
        assert(other.contains(last));
        assert(items.to_multiset().count(last) > 0);
        assert(items.contains(last));
        let i = choose|i: int| 0 <= i < items.len() && items[i] == last;
        let front = other.drop_last();
        assert(front =~= other.remove(n - 1));
        assert(items.remove(i).to_multiset() == front.to_multiset());
        lemma_images_permutation(items.remove(i), front, place);
        assert(images(items, place).remove(i) =~= images(items.remove(i), place));
        assert(images(other, place).remove(n - 1) =~= images(front, place));
        assert(images(items, place)[i] == images(other, place)[n - 1]);
        assert(images(items, place).to_multiset() =~= images(items, place).remove(
            i,
        ).to_multiset().insert(place(last)));
        assert(images(other, place).to_multiset() =~= images(other, place).remove(
            n - 1,
        ).to_multiset().insert(place(last)));
    }
}

/// The count of the neighbours of `me` and the sums of their positions and
/// of their pushes do not depend on the order of the points.
pub proof fn lemma_point_order(me: Vec2, points: Seq<Vec2>, other: Seq<Vec2>, radius: int)
    requires
        points.to_multiset() == other.to_multiset(),
    ensures
        points.len() == other.len(),
        count_near(me, points, radius, points.len() as int) == count_near(
            me,
            other,
            radius,
            other.len() as int,
        ),
        position_sum(me, points, radius, points.len() as int) == position_sum(
            me,
            other,
            radius,
            other.len() as int,
        ),
        repulsion_sum(me, points, radius, points.len() as int) == repulsion_sum(
            me,
            other,
            radius,
            other.len() as int,
        ),
{
    points.to_multiset_ensures();
    other.to_multiset_ensures();
    lemma_sums_are_tallies(me, points, radius, points.len() as int);
    lemma_sums_are_tallies(me, other, radius, other.len() as int);
    lemma_tally_permutation(points, other, count_part(me, radius));
    lemma_tally_permutation(points, other, position_part(me, radius));
    lemma_tally_permutation(points, other, repulsion_part(me, radius));
}

/// The steering that alignment, separation and cohesion give to a bird does
/// not depend on the order of the flock.
pub proof fn lemma_flock_order(me: Bird, birds: Seq<Bird>, other: Seq<Bird>, config: Config)
    requires
        birds.to_multiset() == other.to_multiset(),
    ensures
        alignment_steering(me, birds, config) == alignment_steering(me, other, config),
        separation_steering(me, birds, config) == separation_steering(me, other, config),
        cohesion_steering(me, birds, config) == cohesion_steering(me, other, config),
{
    birds.to_multiset_ensures();
    other.to_multiset_ensures();
    let place = |bird: Bird| bird.pos@;
    lemma_images_permutation(birds, other, place);
    assert(bird_positions(birds) =~= images(birds, place));
    assert(bird_positions(other) =~= images(other, place));
    lemma_point_order(
        me.pos@,
        bird_positions(birds),
        bird_positions(other),
        config.alignment_view_distance as int,
    );
    lemma_point_order(
        me.pos@,
        bird_positions(birds),
        bird_positions(other),
        config.separation_view_distance as int,
    );
    lemma_point_order(
        me.pos@,
        bird_positions(birds),
        bird_positions(other),
        config.cohesion_view_distance as int,
    );
    let radius = config.alignment_view_distance as int;
    lemma_velocity_sum_is_tally(me.pos@, birds, radius, birds.len() as int);
    lemma_velocity_sum_is_tally(me.pos@, other, radius, other.len() as int);
    lemma_tally_permutation(birds, other, velocity_part(me.pos@, radius));
}

/// The steering that the obstacles give to a bird does not depend on the
/// order of the obstacles.
pub proof fn lemma_obstacle_order(
    me: Bird,
    obstacles: Seq<Obstacle>,
    other: Seq<Obstacle>,
    config: Config,
)
    requires
        obstacles.to_multiset() == other.to_multiset(),
    ensures
        obstacle_steering(me, obstacles, config) == obstacle_steering(me, other, config),
{
    obstacles.to_multiset_ensures();
    other.to_multiset_ensures();
    let place = |obstacle: Obstacle| obstacle.pos@;
    lemma_images_permutation(obstacles, other, place);
    assert(obstacle_positions(obstacles) =~= images(obstacles, place));
    assert(obstacle_positions(other) =~= images(other, place));
    lemma_point_order(
        me.pos@,
        obstacle_positions(obstacles),
        obstacle_positions(other),
        config.obstacle_radius as int,
    );
}

/// One tick moves a bird the same way in two worlds that differ only in the
/// order of their birds and of their obstacles.
pub proof fn lemma_tick_ignores_order(world: World, other: World, me: Bird, jitter: Vec2)
    requires
        world.birds.to_multiset() == other.birds.to_multiset(),
        world.obstacles.to_multiset() == other.obstacles.to_multiset(),
        other == (World { birds: other.birds, obstacles: other.obstacles, ..world }),
    ensures
        world.moved_bird(me, jitter) == other.moved_bird(me, jitter),
{
    lemma_flock_order(me, world.birds, other.birds, world.config);
    lemma_obstacle_order(me, world.obstacles, other.obstacles, world.config);
}

} // verus!
