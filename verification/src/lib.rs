//! Resolves and fetches distributable extension packages from a remote
//! registry: identifier parsing, version-compatibility resolution, download
//! URL and cache-path derivation, and batch planning under a bounded
//! concurrency window. All decision logic lives here, verified; network and
//! filesystem work is left to the surrounding application.
pub mod architecture;
pub mod args;
pub mod config;
pub mod digits;
pub mod marketplace;
pub mod pipeline;
pub mod error;
pub mod extension;
pub mod strings;
pub mod types;

pub use error::VsixHarvesterError;
