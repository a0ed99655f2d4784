//! Workspace persistence for a long-form writing application.
//!
//! A project lives in two representations that this crate keeps consistent:
//! an authoritative relational store of typed entities, and a derived,
//! human-browsable folder of one file per entity. Backups are timestamped
//! compressed snapshots of such a folder.

pub mod backup;
pub mod clock;
pub mod config;
pub mod crypto;
pub mod entities;
pub mod images;
pub mod info;
pub mod migration;
pub mod project_fs;
pub mod publishing;
pub mod registry;
pub mod speech;
pub mod store;
pub mod sync;
pub mod text;
