//! Release resolution and plugin lifecycle engine for a small command-line
//! plugin manager.
//!
//! The library tracks a registry of plugins, each backed by a repository's
//! releases feed: it parses a releases listing into records, selects the
//! applicable release under an update policy, and reconciles the registry on
//! register, unregister and update operations.  Network and file side effects
//! live outside the library; the functions here compute decisions over plain
//! values and carry contracts for them.

pub mod commands;
pub mod data;
pub mod json;
pub mod laws;
pub mod ops;
pub mod registry;
pub mod releases;
pub mod text;
pub mod time;
pub mod url;
