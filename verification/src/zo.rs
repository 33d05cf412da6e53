//! The game built on the vehicle: players, zombies, health and the lobby.

pub mod car;
pub mod health;
pub mod lobby;
pub mod population;
pub mod world;
pub mod zombies;
