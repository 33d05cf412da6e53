//! Deterministic simulation core of a top-down vehicle-versus-zombie game.
//!
//! The library holds the rules of the game as functions on plain values: the
//! per-tire force model, the host's population control, target selection,
//! agent movement and the replicated health ledger. All arithmetic is
//! fixed-point, in millionths, so that every peer computes the same thing
//! bit for bit. Entities are named by integer handles, and what a rule reads
//! of the world is handed to it in tables.

pub mod camera_follow;
pub mod car;
pub mod entity_set;
pub mod fixed;
pub mod force;
pub mod ids;
pub mod rng;
pub mod scheduler;
pub mod transform;
pub mod utils;
pub mod vec2;
pub mod zo;
