//! Workspace resolution engine: project manifests, layered skill discovery,
//! a per-project memory store and the request router over them.

pub mod config;
pub mod format;
pub mod keyed;
pub mod memory;
pub mod server;
pub mod setup;
pub mod skills;
pub mod text;
pub mod tools;
