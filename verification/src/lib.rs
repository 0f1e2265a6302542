//! Core of a grid-based multiplayer snake game.
//!
//! A snake's shape is not stored as a list of occupied cells: it is derived
//! from the head position and a bounded history of direction changes.  The
//! client keeps its view of the shared game state consistent with the server
//! by exchanging datagrams whose payloads this crate encodes, decodes and
//! schedules; the socket work itself and the drawing surface live outside.

pub mod codec;
pub mod game;
pub mod server;
pub mod session;
