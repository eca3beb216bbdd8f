//! Authoritative state for a small real-time multiplayer field: who is
//! connected, where they stand and what they said, together with the
//! bookkeeping that fans every change out to the connected sessions.

pub mod ambient;
pub mod bus;
pub mod client;
pub mod content;
pub mod coord;
pub mod digest;
pub mod handshake;
pub mod keyed;
pub mod message;
pub mod page;
pub mod player;
pub mod registry;
pub mod server;
pub mod session;
