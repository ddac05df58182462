//! Decision logic for a desktop backend with two host commands: revealing a
//! file in the platform file manager and clearing marker-named cache files.
//!
//! The library computes, with proofs, what those commands should do: which
//! cache entries to delete and where to stop, and which program with which
//! arguments reveals a path. The surrounding binary performs the actual
//! process spawning and filesystem work.

pub mod cache;
pub mod folder;
pub mod pattern;
