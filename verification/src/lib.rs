//! Deterministic simulation core of a single-player "dodge and shoot" arcade
//! game that runs on a fixed 20 Hz logical clock.
//!
//! The crate holds the whole rule set of the game: the pseudo-random source,
//! the fixed-capacity entity pools, the difficulty model, the collision and
//! scoring passes, the power-up timers, the scripted autoplay controller and
//! the session state machine. Sampling buttons, drawing and pacing the clock
//! are left to the caller, which hands raw button levels to the session's
//! `tick` once per tick and draws what the returned frame asks for.

pub mod rng;
pub mod geometry;
pub mod entities;
pub mod pools;
pub mod difficulty;
pub mod particles;
pub mod player;
pub mod powerups;
pub mod targeting;
pub mod motion;
pub mod input;
pub mod demo;
pub mod game;
pub mod weapons;
pub mod spawn;
pub mod collision;
pub mod session;
pub mod invariants;
