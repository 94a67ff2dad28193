//! Release automation: ecosystem detection, manifest version handling,
//! repository gating and changelog rendering, with every decision verified.

pub mod error;
pub mod git;
pub mod implementations;
pub mod language;
pub mod manifest;
pub mod release;
pub mod text;
pub mod utils;
