//! A flocking engine on fixed-point numbers.
//!
//! Every coordinate, speed and weight is an `i64` that counts millionths of a
//! unit, so that each step of the simulation is exact integer arithmetic and
//! its bounds can be proved.

pub mod config;
pub mod control;
pub mod entities;
pub mod fixed;
pub mod order;
pub mod random;
pub mod rules;
pub mod shapes;
pub mod simulation;
pub mod tools;
pub mod vector;
