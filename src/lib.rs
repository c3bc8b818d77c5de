//! A two-dimensional particle arena: circular creatures drift at constant
//! velocity, bounce off the arena walls, and change colour when they overlap.
//!
//! Every quantity is an integer. Lengths are in one fixed unit, time in
//! another, and a velocity is lengths per time unit, so that a step of `dt`
//! moves a creature by exactly `velocity * dt`.
pub mod config;
pub mod creature;
pub mod geometry;
pub mod random;
pub mod scene;
