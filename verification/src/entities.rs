//! Birds and obstacles.

use crate::config::{COORD_LIMIT, FORCE_LIMIT, PARAM_LIMIT};
use crate::fixed::{lemma_signed_mul_bound, SCALE};
use crate::shapes::{blue, green, red, yellow, Colour, Mark, Shape};
use crate::tools::Tools;
use crate::vector::{lemma_limited, Point2, Vec2, Vector2};
use vstd::prelude::*;

verus! {

/// A coordinate after it has left the field on one side and come back in on
/// the other: below zero the size of the field is added, above the size it
/// is taken off.
pub open spec fn wrapped(x: int, size: int) -> int {
    if x < 0 {
        x + size
    } else if x > size {
        x - size
    } else {
        x
    }
}

/// The velocity of a bird after one tick: the steering of the three flock
/// rules and the jitter are added and the sum is limited to `max`, then the
/// steering away from obstacles is added and the sum is limited once more.
pub open spec fn next_velocity(
    vel: Vec2,
    align: Vec2,
    sep: Vec2,
    coh: Vec2,
    random: Vec2,
    obst: Vec2,
    max: int,
) -> Vec2 {
    let acceleration = align.plus(sep).plus(coh).plus(random);
    vel.plus(acceleration).limited(max).plus(obst).limited(max)
}

/// The position of a bird after it has moved by `vel` on a field of the given
/// size.
pub open spec fn next_position(pos: Vec2, vel: Vec2, width: int, height: int) -> Vec2 {
    Vec2 { x: wrapped(pos.x + vel.x, width), y: wrapped(pos.y + vel.y, height) }
}

/// The point lies on the field.
pub open spec fn on_field(pos: Vec2, width: int, height: int) -> bool {
    0 <= pos.x <= width && 0 <= pos.y <= height
}

/// A bird: where it is, how it moves, and the steering that each rule gave
/// it in the last tick.
#[derive(Clone, Copy, Debug, PartialEq, Eq, Structural)]
pub struct Bird {
    pub pos: Point2,
    pub vel: Vector2,
    pub align: Vector2,
    pub sep: Vector2,
    pub coh: Vector2,
    pub obst: Vector2,
    pub random: Vector2,
    pub is_alive: bool,
}

impl Bird {
    /// The position and the velocity are small enough to compute with.
    pub open spec fn wf(&self) -> bool {
        self.pos@.within(COORD_LIMIT as int) && self.vel@.within(PARAM_LIMIT as int)
    }

    /// How a steering vector of this bird is shown: as a line from the bird
    /// along the vector, a thousand times as long as the vector and in the
    /// given colour, or as a red dot on the bird where the vector is zero.
    pub open spec fn steering_mark(self, steering: Vec2, colour: Colour) -> Mark {
        if steering.is_zero() {
            Mark { shape: Shape::Disc { centre: self.pos, radius: SCALE }, colour: red() }
        } else {
            Mark {
                shape: Shape::Line {
                    from: self.pos,
                    to: Point2 {
                        x: (self.pos.x + steering.x * 1000) as i64,
                        y: (self.pos.y + steering.y * 1000) as i64,
                    },
                },
                colour,
            }
        }
    }

    /// The bird after one tick under the given steering.
    pub open spec fn updated(
        self,
        align: Vec2,
        sep: Vec2,
        coh: Vec2,
        random: Vec2,
        obst: Vec2,
        max_velocity: int,
        screen_width: int,
        screen_height: int,
    ) -> Bird {
        let vel = next_velocity(self.vel@, align, sep, coh, random, obst, max_velocity);
        let pos = next_position(self.pos@, vel, screen_width, screen_height);
        Bird {
            pos: pos.to_point(),
            vel: vel.to_vector(),
            align: align.to_vector(),
            sep: sep.to_vector(),
            coh: coh.to_vector(),
            obst: obst.to_vector(),
            random: random.to_vector(),
            is_alive: self.is_alive,
        }
    }

    /// A living bird that no rule has steered yet.
    pub fn new(pos: Point2, vel: Vector2) -> (bird: Bird)
        ensures
            bird == (Bird {
                pos,
                vel,
                align: Vector2 { x: 0, y: 0 },
                sep: Vector2 { x: 0, y: 0 },
                coh: Vector2 { x: 0, y: 0 },
                obst: Vector2 { x: 0, y: 0 },
                random: Vector2 { x: 0, y: 0 },
                is_alive: true,
            }),
    {
        Bird {
            pos,
            vel,
            align: Vector2 { x: 0, y: 0 },
            sep: Vector2 { x: 0, y: 0 },
            coh: Vector2 { x: 0, y: 0 },
            obst: Vector2 { x: 0, y: 0 },
            random: Vector2 { x: 0, y: 0 },
            is_alive: true,
        }
    }

    /// Tells whether the position and the velocity are small enough to
    /// compute with.
    pub fn is_valid(&self) -> (b: bool)
        ensures
            b == self.wf(),
    {
        -COORD_LIMIT <= self.pos.x && self.pos.x <= COORD_LIMIT && -COORD_LIMIT <= self.pos.y
            && self.pos.y <= COORD_LIMIT && self.vel.is_within(PARAM_LIMIT)
    }

    /// The circle within which the bird sees the birds that it aligns with.
    pub fn alignment_view_distance_circle(&self, alignment_view_distance: i64) -> (mark: Mark)
        ensures
            mark == (Mark {
                shape: Shape::Ring { centre: self.pos, radius: alignment_view_distance },
                colour: red(),
            }),
    {
        Mark {
            shape: Shape::Ring { centre: self.pos, radius: alignment_view_distance },
            colour: Colour { red: 255, green: 0, blue: 0 },
        }
    }

    /// The circle within which the bird sees the birds that it keeps away
    /// from.
    pub fn separation_view_distance_circle(&self, separation_view_distance: i64) -> (mark: Mark)
        ensures
            mark == (Mark {
                shape: Shape::Ring { centre: self.pos, radius: separation_view_distance },
                colour: red(),
            }),
    {
        Mark {
            shape: Shape::Ring { centre: self.pos, radius: separation_view_distance },
            colour: Colour { red: 255, green: 0, blue: 0 },
        }
    }

    /// A red disc of four units on the bird.
    pub fn center_point(&self) -> (mark: Mark)
        ensures
            mark == (Mark {
                shape: Shape::Disc { centre: self.pos, radius: 4_000_000 },
                colour: red(),
            }),
    {
        Mark {
            shape: Shape::Disc { centre: self.pos, radius: 4 * SCALE },
            colour: Colour { red: 255, green: 0, blue: 0 },
        }
    }

    /// How a steering vector of this bird is shown.
    fn mark_steering(&self, steering: Vector2, colour: Colour) -> (mark: Mark)
        requires
            self.pos@.within(COORD_LIMIT as int),
            steering@.within(FORCE_LIMIT as int),
        ensures
            mark == self.steering_mark(steering@, colour),
    {
        if steering.is_zero() {
            Mark {
                shape: Shape::Disc { centre: self.pos, radius: SCALE },
                colour: Colour { red: 255, green: 0, blue: 0 },
            }
        } else {
            let to: Point2 = Point2 {
                x: self.pos.x + steering.x * 1000,
                y: self.pos.y + steering.y * 1000,
            };
            Mark { shape: Shape::Line { from: self.pos, to }, colour }
        }
    }

    /// The steering of alignment in the last tick, in red.
    pub fn alignment_vector(&self) -> (mark: Mark)
        requires
            self.pos@.within(COORD_LIMIT as int),
            self.align@.within(FORCE_LIMIT as int),
        ensures
            mark == self.steering_mark(self.align@, red()),
    {
        self.mark_steering(self.align, Colour { red: 255, green: 0, blue: 0 })
    }

    /// The steering of separation in the last tick, in green.
    pub fn separation_vector(&self) -> (mark: Mark)
        requires
            self.pos@.within(COORD_LIMIT as int),
            self.sep@.within(FORCE_LIMIT as int),
        ensures
            mark == self.steering_mark(self.sep@, green()),
    {
        self.mark_steering(self.sep, Colour { red: 0, green: 255, blue: 0 })
    }

    /// The steering of cohesion in the last tick, in blue.
    pub fn cohesion_vector(&self) -> (mark: Mark)
        requires
            self.pos@.within(COORD_LIMIT as int),
            self.coh@.within(FORCE_LIMIT as int),
        ensures
            mark == self.steering_mark(self.coh@, blue()),
    {
        self.mark_steering(self.coh, Colour { red: 0, green: 0, blue: 255 })
    }

    /// The steering away from obstacles in the last tick, in yellow.
    pub fn obstacle_vector(&self) -> (mark: Mark)
        requires
            self.pos@.within(COORD_LIMIT as int),
            self.obst@.within(FORCE_LIMIT as int),
        ensures
            mark == self.steering_mark(self.obst@, yellow()),
    {
        self.mark_steering(self.obst, Colour { red: 255, green: 255, blue: 0 })
    }

    /// Moves the bird by one tick: keeps the steering vectors for display,
    /// turns them into the new velocity, which is never faster than
    /// `max_velocity`, and moves the bird by it across the field, on which
    /// each side leads to the opposite one.
    pub fn update(
        &mut self,
        align: Vector2,
        sep: Vector2,
        coh: Vector2,
        random: Vector2,
        obst: Vector2,
        max_velocity: i64,
        screen_width: i64,
        screen_height: i64,
    )
        requires
            old(self).pos@.within(COORD_LIMIT as int),
            old(self).vel@.within(PARAM_LIMIT as int),
            align@.within(FORCE_LIMIT as int),
            sep@.within(FORCE_LIMIT as int),
            coh@.within(FORCE_LIMIT as int),
            obst@.within(FORCE_LIMIT as int),
            random@.within(PARAM_LIMIT as int),
            0 <= max_velocity <= PARAM_LIMIT,
            0 <= screen_width <= COORD_LIMIT,
            0 <= screen_height <= COORD_LIMIT,
        ensures
            *final(self) == old(self).updated(
                align@,
                sep@,
                coh@,
                random@,
                obst@,
                max_velocity as int,
                screen_width as int,
                screen_height as int,
            ),
            final(self).vel@ == next_velocity(
                old(self).vel@,
                align@,
                sep@,
                coh@,
                random@,
                obst@,
                max_velocity as int,
            ),
            final(self).pos@ == next_position(
                old(self).pos@,
                final(self).vel@,
                screen_width as int,
                screen_height as int,
            ),
            final(self).vel@.norm_sq() <= max_velocity * max_velocity,
            max_velocity <= screen_width && max_velocity <= screen_height ==> final(self).wf(),
            max_velocity <= screen_width && max_velocity <= screen_height && on_field(
                old(self).pos@,
                screen_width as int,
                screen_height as int,
            ) ==> on_field(final(self).pos@, screen_width as int, screen_height as int),
    {
        self.align = align;
        self.sep = sep;
        self.coh = coh;
        self.random = random;
        self.obst = obst;

        let acceleration: Vector2 = align.plus(sep).plus(coh).plus(random);
        let mut vel: Vector2 = self.vel.plus(acceleration);
        proof {
            lemma_signed_mul_bound(
                vel.x as int,
                max_velocity as int,
                0x4_0000_0000,
                PARAM_LIMIT as int,
            );
            lemma_signed_mul_bound(
                vel.y as int,
                max_velocity as int,
                0x4_0000_0000,
                PARAM_LIMIT as int,
            );
            lemma_limited(vel@, max_velocity as int);
        }
        Tools::limit_vector(&mut vel, max_velocity);
        vel = vel.plus(obst);
        proof {
            lemma_signed_mul_bound(
                vel.x as int,
                max_velocity as int,
                0x4_0000_0000,
                PARAM_LIMIT as int,
            );
            lemma_signed_mul_bound(
                vel.y as int,
                max_velocity as int,
                0x4_0000_0000,
                PARAM_LIMIT as int,
            );
            lemma_limited(vel@, max_velocity as int);
        }
        Tools::limit_vector(&mut vel, max_velocity);
        self.vel = vel;

        self.pos.x = self.pos.x + self.vel.x;
        self.pos.y = self.pos.y + self.vel.y;
        if self.pos.x < 0 {
            self.pos.x = self.pos.x + screen_width;
        } else if self.pos.x > screen_width {
            self.pos.x = self.pos.x - screen_width;
        }
        if self.pos.y < 0 {
            self.pos.y = self.pos.y + screen_height;
        } else if self.pos.y > screen_height {
            self.pos.y = self.pos.y - screen_height;
        }
    }
}

/// An obstacle: a disc that does not move and that birds keep away from.
#[derive(Clone, Copy, Debug, PartialEq, Eq, Structural)]
pub struct Obstacle {
    pub pos: Point2,
    pub radius: i64,
    pub is_alive: bool,
}

impl Obstacle {
    /// The position is small enough to compute with.
    pub open spec fn wf(&self) -> bool {
        self.pos@.within(COORD_LIMIT as int)
    }

    /// A living obstacle.
    pub fn new(pos: Point2, radius: i64) -> (obstacle: Obstacle)
        ensures
            obstacle == (Obstacle { pos, radius, is_alive: true }),
    {
        Obstacle { pos, radius, is_alive: true }
    }

    /// Tells whether the position is small enough to compute with.
    pub fn is_valid(&self) -> (b: bool)
        ensures
            b == self.wf(),
    {
        -COORD_LIMIT <= self.pos.x && self.pos.x <= COORD_LIMIT && -COORD_LIMIT <= self.pos.y
            && self.pos.y <= COORD_LIMIT
    }

    /// One tick of an obstacle: it stays as it is.
    pub fn update(&mut self)
        ensures
            *final(self) == *old(self),
    {
    }
}

} // verus!
