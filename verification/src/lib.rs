//! Decisions behind reading a Rust crate's public surface.

pub mod analysis;
pub mod resolve;
pub mod text;
