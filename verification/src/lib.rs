//! Verified core of a Minecraft launcher: a canonical content model shared by
//! two registry adapters, a deterministic version resolver, a content-addressed
//! store keyed by SHA-1, and profile reconciliation (upsert, remove, diff,
//! clone) with idempotence guarantees. I/O (HTTP, disk, processes) lives in the
//! unverified shell around this crate; the functions here take and return plain
//! values.

pub mod accounts;
pub mod config;
pub mod curseforge;
pub mod error;
pub mod java;
pub mod logs;
pub mod model;
pub mod modrinth;
pub mod ops;
pub mod paths;
pub mod profile;
pub mod resolver;
pub mod store;
pub mod template;
pub mod text;
