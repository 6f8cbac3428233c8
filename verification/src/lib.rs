//! Command handling, object hashing and node ordering for a git-compatible
//! monorepo engine, with the decisions and text processing proved.

pub mod auth;
pub mod command;
pub mod node;
pub mod object;
pub mod peer;
pub mod target;
pub mod text;
