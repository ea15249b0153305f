//! Linear algebra for games.

pub mod matrices;
