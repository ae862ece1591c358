//! Locating and reading the analysis data of a crate.

pub mod ensure;
pub mod error;
pub mod json;
pub mod laws;
pub mod progress;
pub mod targets;
pub mod toolchain;
pub mod view_laws;
