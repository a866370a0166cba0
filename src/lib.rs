//! Realtime coordination core of a five-in-a-row game server: the board and
//! match rules, the room state machine, the envelope protocol decisions and
//! the authentication token lifecycle.

pub mod board;
pub mod ids;
pub mod rooms;
pub mod error;
pub mod protocol;
pub mod auth;
pub mod laws;
pub mod session;
pub mod hub;
