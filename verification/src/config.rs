//! The constants of a simulation, gathered in one record.

use vstd::math::abs;
use vstd::prelude::*;

verus! {

/// The largest speed, steering step, jitter and weight that a configuration
/// may hold: 2^26 millionths, a little over 67 units.
pub const PARAM_LIMIT: i64 = 67_108_864;

/// The largest coordinate of a position, and the largest side of the field:
/// 2^40 millionths, a little over a million units.
pub const COORD_LIMIT: i64 = 1_099_511_627_776;

/// The largest coordinate of a direction that a rule turns into steering:
/// 2^41 millionths, the difference of two positions.
pub const DIRECTION_LIMIT: i64 = 2_199_023_255_552;

/// The largest coordinate of the push that a bird gets from one neighbour: a
/// direction of length one, divided by a distance of one millionth.
pub const PUSH_LIMIT: i64 = 1_000_000_000_000;

/// The largest coordinate of the steering vector of one rule: a steering step
/// of `PARAM_LIMIT` under a weight of `PARAM_LIMIT`.
pub const FORCE_LIMIT: i64 = 4_503_599_627;

/// How far each rule sees, how fast a bird may fly and turn, how much each
/// rule weighs, and the size of the field. Lengths and weights are
/// fixed-point numbers, times are millionths of a second.
#[derive(Clone, Copy, Debug, PartialEq, Eq, Structural)]
pub struct Config {
    pub alignment_view_distance: i64,
    pub separation_view_distance: i64,
    pub cohesion_view_distance: i64,
    pub obstacle_radius: i64,
    pub max_speed: i64,
    pub max_steering_velocity: i64,
    pub random_movement: i64,
    pub alignment_modifier: i64,
    pub separation_modifier: i64,
    pub cohesion_modifier: i64,
    pub obstacle_modifier: i64,
    pub screen_width: i64,
    pub screen_height: i64,
    /// The time between two spawns.
    pub spawn_cooldown: i64,
    /// The largest coordinate of the velocity of a bird that was just spawned.
    pub spawn_speed: i64,
    /// The time that one tick takes.
    pub tick_time: i64,
}

impl Config {
    /// The configuration can be simulated: each speed and weight is within
    /// `PARAM_LIMIT`, the field is no larger than `COORD_LIMIT`, and no bird
    /// crosses the whole field in one tick.
    pub open spec fn wf(&self) -> bool {
        &&& 0 <= self.max_speed <= PARAM_LIMIT
        &&& 0 <= self.max_steering_velocity <= PARAM_LIMIT
        &&& 0 <= self.random_movement <= PARAM_LIMIT
        &&& 0 <= self.spawn_speed <= PARAM_LIMIT
        &&& abs(self.alignment_modifier as int) <= PARAM_LIMIT
        &&& abs(self.separation_modifier as int) <= PARAM_LIMIT
        &&& abs(self.cohesion_modifier as int) <= PARAM_LIMIT
        &&& abs(self.obstacle_modifier as int) <= PARAM_LIMIT
        &&& self.max_speed <= self.screen_width <= COORD_LIMIT
        &&& self.max_speed <= self.screen_height <= COORD_LIMIT
        &&& 0 <= self.spawn_cooldown
        &&& 0 <= self.tick_time
    }

    /// Tells whether the configuration can be simulated.
    pub fn is_valid(&self) -> (b: bool)
        ensures
            b == self.wf(),
    {
        0 <= self.max_speed && self.max_speed <= PARAM_LIMIT && 0 <= self.max_steering_velocity
            && self.max_steering_velocity <= PARAM_LIMIT && 0 <= self.random_movement
            && self.random_movement <= PARAM_LIMIT && 0 <= self.spawn_speed && self.spawn_speed
            <= PARAM_LIMIT && -PARAM_LIMIT <= self.alignment_modifier && self.alignment_modifier
            <= PARAM_LIMIT && -PARAM_LIMIT <= self.separation_modifier
            && self.separation_modifier <= PARAM_LIMIT && -PARAM_LIMIT <= self.cohesion_modifier
            && self.cohesion_modifier <= PARAM_LIMIT && -PARAM_LIMIT <= self.obstacle_modifier
            && self.obstacle_modifier <= PARAM_LIMIT && self.max_speed <= self.screen_width
            && self.screen_width <= COORD_LIMIT && self.max_speed <= self.screen_height
            && self.screen_height <= COORD_LIMIT && 0 <= self.spawn_cooldown && 0
            <= self.tick_time
    }

    /// The usual flock on a field of the given size: birds see 100 units far
    /// to align and to gather and 30 units far to keep apart, avoid obstacles
    /// within 50 units, fly at most 3.5 units a tick and turn by at most 0.16.
    pub fn standard(screen_width: i64, screen_height: i64) -> (config: Config)
        ensures
            config == (Config {
                alignment_view_distance: 100_000_000,
                separation_view_distance: 30_000_000,
                cohesion_view_distance: 100_000_000,
                obstacle_radius: 50_000_000,
                max_speed: 3_500_000,
                max_steering_velocity: 160_000,
                random_movement: 100_000,
                alignment_modifier: 1_600_000,
                separation_modifier: 2_000_000,
                cohesion_modifier: 1_000_000,
                obstacle_modifier: 2_500_000,
                screen_width,
                screen_height,
                spawn_cooldown: 50_000,
                spawn_speed: 100_000,
                tick_time: 16_667,
            }),
            3_500_000 <= screen_width <= COORD_LIMIT && 3_500_000 <= screen_height <= COORD_LIMIT
                ==> config.wf(),
    {
        Config {
            alignment_view_distance: 100_000_000,
            separation_view_distance: 30_000_000,
            cohesion_view_distance: 100_000_000,
            obstacle_radius: 50_000_000,
            max_speed: 3_500_000,
            max_steering_velocity: 160_000,
            random_movement: 100_000,
            alignment_modifier: 1_600_000,
            separation_modifier: 2_000_000,
            cohesion_modifier: 1_000_000,
            obstacle_modifier: 2_500_000,
            screen_width,
            screen_height,
            spawn_cooldown: 50_000,
            spawn_speed: 100_000,
            tick_time: 16_667,
        }
    }
}

} // verus!
