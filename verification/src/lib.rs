//! Relay server core for real-time multiplayer party games.
//!
//! One privileged "host" connection drives a room; players join with a short
//! room code and exchange opaque payloads with the host through the relay.
//! The modules here hold the verified heart of that relay: the wire command
//! vocabulary, the per-room session state machine, the process-wide room
//! registry, the room code generator, the player connection adapter, and the
//! request routing rules. Socket and HTTP plumbing lives outside the library
//! and drives these functions with plain values.

pub mod adapter;
pub mod codes;
pub mod comm;
pub mod laws;
pub mod registry;
pub mod route;
pub mod session;
