//! Authoritative simulation core for a multiplayer arena game.
//!
//! Ships move on a bounded toroidal grid, fire bullets, collide, take
//! damage and, on a kill, absorb a randomized fraction of the victim's
//! stats. All quantities are fixed-point integers (scaled by `SCALE`),
//! so every rule of the simulation is stated and proved exactly.

pub mod config;
pub mod entities;
pub mod grid;
pub mod laws;
pub mod model;
pub mod numeric;
pub mod queue;
pub mod slotmap;
pub mod rng;
pub mod trig;
pub mod world;
