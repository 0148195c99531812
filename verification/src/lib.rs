//! A flock of agents that steer by what their neighbours do.
//!
//! Every agent of the flock has a position and a velocity. At each tick every
//! pair of agents is looked at once: agents too close push each other away,
//! agents a little farther apart pull their velocities and positions together.
//! A target point may attract the agents near it, and a box keeps the flock
//! together. The new velocity is clamped to a range of speeds and moves the
//! agent for one tick.
//!
//! All numbers are fixed-point integers, so a run is a function of its seed,
//! its configuration and the number of its ticks, on every machine.

pub mod accumulate;
pub mod config;
pub mod fixed;
pub mod integrate;
pub mod pairs;
pub mod resolve;
pub mod simulation;
pub mod spawn;
pub mod store;
pub mod theorems;
pub mod vector;
