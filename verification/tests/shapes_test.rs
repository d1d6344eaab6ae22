use boids::entities::Bird;
use boids::shapes::{Colour, Mark, Shape};
use boids::vector::{Point2, Vector2};

const UNIT: i64 = 1_000_000;

const RED: Colour = Colour { red: 255, green: 0, blue: 0 };

fn bird() -> Bird {
    Bird::new(Point2::new(100 * UNIT, 200 * UNIT), Vector2::new(UNIT, 0))
}

#[test]
fn view_distance_circles() {
    let b: Bird = bird();
    assert_eq!(
        b.alignment_view_distance_circle(100 * UNIT),
        Mark { shape: Shape::Ring { centre: b.pos, radius: 100 * UNIT }, colour: RED }
    );
    assert_eq!(
        b.separation_view_distance_circle(30 * UNIT),
        Mark { shape: Shape::Ring { centre: b.pos, radius: 30 * UNIT }, colour: RED }
    );
}

#[test]
fn center_point_is_a_red_disc() {
    let b: Bird = bird();
    assert_eq!(
        b.center_point(),
        Mark { shape: Shape::Disc { centre: b.pos, radius: 4 * UNIT }, colour: RED }
    );
}

#[test]
fn a_zero_steering_vector_is_a_red_dot() {
    let b: Bird = bird();
    let dot: Mark = Mark { shape: Shape::Disc { centre: b.pos, radius: UNIT }, colour: RED };
    assert_eq!(b.alignment_vector(), dot);
    assert_eq!(b.separation_vector(), dot);
    assert_eq!(b.cohesion_vector(), dot);
    assert_eq!(b.obstacle_vector(), dot);
}

#[test]
fn a_steering_vector_is_a_line_a_thousand_times_as_long() {
    let mut b: Bird = bird();
    b.align = Vector2::new(256_000, -1);
    b.sep = Vector2::new(0, 320_000);
    b.coh = Vector2::new(-160_000, 0);
    b.obst = Vector2::new(-400_000, 400_000);
    assert_eq!(
        b.alignment_vector(),
        Mark {
            shape: Shape::Line { from: b.pos, to: Point2::new(356 * UNIT, 200 * UNIT - 1000) },
            colour: RED,
        }
    );
    assert_eq!(
        b.separation_vector(),
        Mark {
            shape: Shape::Line { from: b.pos, to: Point2::new(100 * UNIT, 520 * UNIT) },
            colour: Colour { red: 0, green: 255, blue: 0 },
        }
    );
    assert_eq!(
        b.cohesion_vector(),
        Mark {
            shape: Shape::Line { from: b.pos, to: Point2::new(-60 * UNIT, 200 * UNIT) },
            colour: Colour { red: 0, green: 0, blue: 255 },
        }
    );
    assert_eq!(
        b.obstacle_vector(),
        Mark {
            shape: Shape::Line { from: b.pos, to: Point2::new(-300 * UNIT, 600 * UNIT) },
            colour: Colour { red: 255, green: 255, blue: 0 },
        }
    );
}

#[test]
fn vectors_within_a_bound() {
    assert!(Vector2::new(5, -5).is_within(5));
    assert!(!Vector2::new(6, -5).is_within(5));
    assert!(!Vector2::new(0, -6).is_within(5));
    assert!(Vector2::zero().is_within(0));
    assert!(!Vector2::zero().is_within(-1));
}
