//! Core of a small real-time arcade simulation.
//!
//! A player entity moves on a 2D plane, collectible entities spawn
//! periodically and on click, and colliding with a collectible removes it
//! and scores a point, tracked against a running high score. This crate
//! holds the per-frame update logic: entity and state management,
//! timer-driven spawning, collision-triggered scoring, and input-to-motion
//! mapping. Rendering, audio, window and input-device polling stay in the
//! host program, which hands this crate plain values each frame.
//!
//! All coordinates and times are plain integers: positions in world units,
//! durations and frame deltas in microseconds. The host converts to and
//! from whatever representation its engine uses.

pub mod collisions;
pub mod frame;
pub mod label;
pub mod motion;
pub mod registry;
pub mod rng;
pub mod score;
pub mod timer;
