//! A verified core for a read-only species-description gateway.
//!
//! Given a creature name the gateway fetches a species record from a
//! reference API, optionally rewrites its description through a
//! tone-translation API, and returns a normalized record.  Everything that
//! decides or computes lives here and is verified; the surrounding binary
//! only performs the two HTTP calls and hands their outcomes to this crate.
pub mod json;
pub mod pokeapi;
pub mod server;
pub mod text;
pub mod translation;
