//! Simulation core of a vertically scrolling arcade shooter.
//!
//! The library computes one fixed-rate simulation tick at a time: input
//! translation, spawning under rate and concurrency limits, velocity
//! integration against a scrolling camera, axis-aligned collision detection,
//! two-phase damage resolution, lifecycle culling, and the top-level
//! menu / play / game-over state machine.  All geometry is carried in
//! integer sub-units so that every step of the pipeline has an exact
//! contract; rendering, audio and window input stay outside and talk to the
//! core through plain values.

pub mod combat;
pub mod entity;
pub mod geom;
pub mod input;
pub mod motion;
pub mod rng;
pub mod score;
pub mod spawn;
pub mod state;
pub mod timer;
pub mod world;
