//! The world state of a small multiplayer game server: who is online, where
//! each character stands, which session hears about changes, and how a
//! client connection turns its frames into requests for the world.

pub mod channels;
pub mod types;
pub mod game;
pub mod connection;
pub mod laws;
