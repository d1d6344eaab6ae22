use boids::config::Config;
use boids::entities::{Bird, Obstacle};
use boids::rules::{
    alignment, cohesion, mean_of, near, obstacle_avoidance, push_away, separation, steer, weighted,
};
use boids::vector::{Point2, Vector2};

const UNIT: i64 = 1_000_000;

fn field() -> Config {
    Config::standard(800 * UNIT, 600 * UNIT)
}

fn bird(x: i64, y: i64, vx: i64, vy: i64) -> Bird {
    Bird::new(Point2::new(x * UNIT, y * UNIT), Vector2::new(vx * UNIT, vy * UNIT))
}

fn flock() -> Vec<Bird> {
    vec![bird(100, 100, 1, 0), bird(150, 100, 0, 2), bird(100, 160, 2, 2), bird(400, 400, 3, 3)]
}

#[test]
fn neighbour_is_elsewhere_and_within_the_radius() {
    let me: Point2 = Point2::new(0, 0);
    assert!(near(&me, &Point2::new(3, 4), 5));
    assert!(!near(&me, &Point2::new(3, 4), 4));
    assert!(near(&me, &Point2::new(-5, 0), 5));
    assert!(!near(&me, &Point2::new(0, 6), 5));
}

#[test]
fn a_bird_is_not_its_own_neighbour() {
    let me: Point2 = Point2::new(7, -9);
    assert!(!near(&me, &me, 100));
    assert!(!near(&me, &Point2::new(7, -9), 0));
}

#[test]
fn no_neighbour_under_a_negative_radius() {
    let me: Point2 = Point2::new(0, 0);
    assert!(!near(&me, &Point2::new(1, 0), -1));
    assert!(!near(&me, &Point2::new(1, 0), -1_000_000));
}

#[test]
fn neighbours_at_the_ends_of_the_field() {
    let a: Point2 = Point2::new(-1_099_511_627_776, -1_099_511_627_776);
    let b: Point2 = Point2::new(1_099_511_627_776, 1_099_511_627_776);
    assert!(!near(&a, &b, 3_000_000_000_000));
    assert!(near(&a, &b, 3_200_000_000_000));
}

#[test]
fn push_is_stronger_from_a_nearer_neighbour() {
    let me: Point2 = Point2::new(0, 0);
    assert_eq!(push_away(&me, &Point2::new(10 * UNIT, 0)), Vector2::new(-100_000, 0));
    assert_eq!(push_away(&me, &Point2::new(2 * UNIT, 0)), Vector2::new(-500_000, 0));
    assert_eq!(push_away(&me, &Point2::new(0, -4 * UNIT)), Vector2::new(0, 250_000));
    assert_eq!(push_away(&me, &Point2::new(-1, 0)), Vector2::new(1_000_000_000_000, 0));
}

#[test]
fn steer_turns_toward_the_direction() {
    let step: Vector2 = steer(Vector2::new(-5, 0), Vector2::zero(), 3_500_000, 160_000);
    assert_eq!(step, Vector2::new(-160_000, 0));
    let small: Vector2 = steer(Vector2::new(7 * UNIT, 0), Vector2::new(3_400_000, 0), 3_500_000, 160_000);
    assert_eq!(small, Vector2::new(100_000, 0));
}

#[test]
fn steer_toward_no_direction_is_zero() {
    let step: Vector2 = steer(Vector2::zero(), Vector2::new(2 * UNIT, -UNIT), 3_500_000, 160_000);
    assert_eq!(step, Vector2::zero());
}

#[test]
fn weighted_multiplies_by_the_modifier() {
    assert_eq!(weighted(Vector2::new(-160_000, 0), 2_000_000), Vector2::new(-320_000, 0));
    assert_eq!(weighted(Vector2::new(160_000, 1), 1_600_000), Vector2::new(256_000, 1));
    assert_eq!(weighted(Vector2::new(160_000, 1), 0), Vector2::zero());
    assert_eq!(weighted(Vector2::new(160_000, -40), -1_500_000), Vector2::new(-240_000, 60));
}

#[test]
fn mean_of_a_sum() {
    assert_eq!(mean_of(7, -7, 2), Vector2::new(3, -3));
    assert_eq!(mean_of(0, 0, 0), Vector2::zero());
    assert_eq!(mean_of(5, 5, 0), Vector2::zero());
    assert_eq!(mean_of(30, -9, 3), Vector2::new(10, -3));
}

#[test]
fn alignment_follows_the_mean_velocity() {
    let birds: Vec<Bird> = flock();
    let force: Vector2 = alignment(&birds[0], &birds, &field());
    assert_eq!(force, Vector2::new(45_488, 251_924));
}

#[test]
fn cohesion_pulls_toward_the_mean_position() {
    let birds: Vec<Bird> = flock();
    let force: Vector2 = cohesion(&birds[0], &birds, &field());
    assert_eq!(force, Vector2::new(67_034, 145_280));
}

#[test]
fn separation_ignores_far_birds() {
    let birds: Vec<Bird> = flock();
    let force: Vector2 = separation(&birds[0], &birds, &field());
    assert_eq!(force, Vector2::zero());
}

#[test]
fn two_birds_push_each_other_apart() {
    let mut config: Config = field();
    config.separation_view_distance = 25 * UNIT;
    let birds: Vec<Bird> = vec![bird(0, 0, 0, 0), bird(10, 0, 0, 0)];
    let left: Vector2 = separation(&birds[0], &birds, &config);
    let right: Vector2 = separation(&birds[1], &birds, &config);
    assert_eq!(left, Vector2::new(-320_000, 0));
    assert_eq!(right, Vector2::new(320_000, 0));
    assert!(left.x < 0 && right.x > 0);
}

#[test]
fn separation_needs_the_neighbour_within_its_radius() {
    let mut config: Config = field();
    config.separation_view_distance = 10 * UNIT - 1;
    let birds: Vec<Bird> = vec![bird(0, 0, 0, 0), bird(10, 0, 0, 0)];
    assert_eq!(separation(&birds[0], &birds, &config), Vector2::zero());
    config.separation_view_distance = 10 * UNIT;
    assert_eq!(separation(&birds[0], &birds, &config), Vector2::new(-320_000, 0));
}

#[test]
fn a_lone_bird_gets_no_steering() {
    let birds: Vec<Bird> = vec![bird(100, 100, 1, -2)];
    let config: Config = field();
    assert_eq!(alignment(&birds[0], &birds, &config), Vector2::zero());
    assert_eq!(separation(&birds[0], &birds, &config), Vector2::zero());
    assert_eq!(cohesion(&birds[0], &birds, &config), Vector2::zero());
    let none: Vec<Obstacle> = Vec::new();
    assert_eq!(obstacle_avoidance(&birds[0], &none, &config), Vector2::zero());
}

#[test]
fn an_empty_flock_gives_no_steering() {
    let birds: Vec<Bird> = Vec::new();
    let me: Bird = bird(5, 5, 1, 1);
    let config: Config = field();
    assert_eq!(alignment(&me, &birds, &config), Vector2::zero());
    assert_eq!(separation(&me, &birds, &config), Vector2::zero());
    assert_eq!(cohesion(&me, &birds, &config), Vector2::zero());
}

#[test]
fn far_birds_give_no_steering() {
    let birds: Vec<Bird> = vec![bird(100, 100, 1, 0), bird(300, 100, 0, 2), bird(100, 201, 2, 2)];
    let config: Config = field();
    assert_eq!(alignment(&birds[0], &birds, &config), Vector2::zero());
    assert_eq!(separation(&birds[0], &birds, &config), Vector2::zero());
    assert_eq!(cohesion(&birds[0], &birds, &config), Vector2::zero());
}

#[test]
fn birds_at_one_place_do_not_steer_each_other() {
    let birds: Vec<Bird> = vec![bird(100, 100, 1, 0), bird(100, 100, 0, 2)];
    let config: Config = field();
    assert_eq!(alignment(&birds[0], &birds, &config), Vector2::zero());
    assert_eq!(separation(&birds[0], &birds, &config), Vector2::zero());
    assert_eq!(cohesion(&birds[0], &birds, &config), Vector2::zero());
}

#[test]
fn neighbours_that_stand_still_give_no_alignment() {
    let birds: Vec<Bird> = vec![bird(100, 100, 1, 0), bird(110, 100, 0, 0)];
    assert_eq!(alignment(&birds[0], &birds, &field()), Vector2::zero());
}

#[test]
fn neighbours_around_a_bird_give_no_cohesion() {
    let birds: Vec<Bird> = vec![bird(100, 100, 1, 0), bird(110, 100, 0, 0), bird(90, 100, 0, 0)];
    assert_eq!(cohesion(&birds[0], &birds, &field()), Vector2::zero());
    assert_eq!(separation(&birds[0], &birds, &field()), Vector2::zero());
}

#[test]
fn an_obstacle_in_reach_pushes_the_bird_away() {
    let me: Bird = bird(100, 100, 1, 0);
    let obstacles: Vec<Obstacle> = vec![Obstacle::new(Point2::new(120 * UNIT, 130 * UNIT), 50 * UNIT)];
    let force: Vector2 = obstacle_avoidance(&me, &obstacles, &field());
    assert_eq!(force, Vector2::new(-284_252, -281_422));
    assert!(!force.is_zero());
}

#[test]
fn an_obstacle_out_of_reach_is_ignored() {
    let me: Bird = bird(100, 100, 1, 0);
    let obstacles: Vec<Obstacle> = vec![Obstacle::new(Point2::new(151 * UNIT, 100 * UNIT), 50 * UNIT)];
    assert_eq!(obstacle_avoidance(&me, &obstacles, &field()), Vector2::zero());
    let edge: Vec<Obstacle> = vec![Obstacle::new(Point2::new(150 * UNIT, 100 * UNIT), 50 * UNIT)];
    assert!(!obstacle_avoidance(&me, &edge, &field()).is_zero());
}

#[test]
fn steering_is_never_larger_than_its_weighted_limit() {
    let birds: Vec<Bird> = flock();
    let config: Config = field();
    for me in birds.iter() {
        let a: Vector2 = alignment(me, &birds, &config);
        let s: Vector2 = separation(me, &birds, &config);
        let c: Vector2 = cohesion(me, &birds, &config);
        assert!(a.x.abs() <= 256_000 && a.y.abs() <= 256_000);
        assert!(s.x.abs() <= 320_000 && s.y.abs() <= 320_000);
        assert!(c.x.abs() <= 160_000 && c.y.abs() <= 160_000);
    }
}

#[test]
fn the_order_of_the_flock_does_not_matter() {
    let birds: Vec<Bird> = vec![
        bird(100, 100, 1, 0),
        bird(110, 105, 0, 2),
        bird(95, 120, 2, 2),
        bird(130, 90, -3, 1),
        bird(400, 400, 3, 3),
    ];
    let shuffled: Vec<Bird> = vec![birds[3], birds[0], birds[4], birds[2], birds[1]];
    let config: Config = field();
    for me in birds.iter() {
        assert_eq!(alignment(me, &birds, &config), alignment(me, &shuffled, &config));
        assert_eq!(separation(me, &birds, &config), separation(me, &shuffled, &config));
        assert_eq!(cohesion(me, &birds, &config), cohesion(me, &shuffled, &config));
    }
    assert!(!separation(&birds[0], &birds, &config).is_zero());
    let obstacles: Vec<Obstacle> = vec![
        Obstacle::new(Point2::new(120 * UNIT, 130 * UNIT), 50 * UNIT),
        Obstacle::new(Point2::new(90 * UNIT, 80 * UNIT), 50 * UNIT),
        Obstacle::new(Point2::new(105 * UNIT, 99 * UNIT), 50 * UNIT),
    ];
    let turned: Vec<Obstacle> = vec![obstacles[2], obstacles[0], obstacles[1]];
    assert_eq!(
        obstacle_avoidance(&birds[0], &obstacles, &config),
        obstacle_avoidance(&birds[0], &turned, &config)
    );
}
