//! Core simulation of a vertical "endless jumper" platformer: procedural
//! level generation, player kinematics, object lifecycle, collision rules,
//! the play-state machine, score keeping and the high-score table.
//!
//! The world is modelled in exact integer arithmetic: positions are held in
//! micro-units (one world unit is 1_000_000 micro-units), velocities in
//! milli-units per second, and a simulation step takes a whole number of
//! milliseconds, so that `position += velocity * dt` and
//! `velocity += gravity * dt` are exact.

pub mod collisions;
pub mod entities;
pub mod highscores;
pub mod kinematics;
pub mod level;
pub mod lifecycle;
pub mod rng;
pub mod session;
pub mod settings;
pub mod world;
