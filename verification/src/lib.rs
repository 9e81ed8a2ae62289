//! Deterministic core of a top-down vehicle combat game.
//!
//! All simulation state is integer-valued so that every tick is exactly
//! reproducible: world lengths are milli-units, times are milliseconds,
//! angles are milliradians, and dimensionless fractions are scaled by 1000.
//! Rendering, asset loading and the browser shell are kept outside; the
//! library exposes the per-tick simulation and its data model.

pub mod ammo;
pub mod arena;
pub mod entities;
pub mod angle;
pub mod config;
pub mod fx;
pub mod game;
pub mod input;
pub mod movement;
pub mod projectiles;
pub mod rng;
pub mod shooting;
pub mod systems;
pub mod tilemap;
pub mod vec2;
pub mod weapons;
