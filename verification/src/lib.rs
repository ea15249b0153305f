//! Blizzard: a multiplayer game server that spreads TCP clients over a fixed
//! pool of game sessions, together with the small entity-component engine the
//! sessions run.
//!
//! Everything in this crate is sequential, verified logic on plain values.
//! Sockets, threads, locks and clocks live with the caller, which feeds what
//! it read or measured into the functions here and carries out what they
//! decide.

pub mod decimal;
pub mod engine;
pub mod example;
pub mod game;
pub mod math;
pub mod server;
pub mod uid;
