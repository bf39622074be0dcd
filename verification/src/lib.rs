//! Configuration and secrets management: a store of items with per-environment
//! values, selective encryption of sensitive values, and assembly of `.env`
//! files from topologies.
pub mod text;
pub mod cli;
pub mod glob;
pub mod smap;
pub mod crypto;
pub mod store;
pub mod template;
pub mod filters;
pub mod topology;
pub mod assemble;
pub mod commands;
pub mod catalog;
pub mod import;
pub mod init;
pub mod paths;
pub mod tui;
