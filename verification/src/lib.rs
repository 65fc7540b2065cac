//! Core logic of the minipot development toolchain for Minecraft plugin
//! developers: version rules, lockfile planning, plugin-source resolution,
//! file-hash verification and the decisions taken while a local Paper server
//! runs.  Everything that touches the network, the disk or a process lives in
//! the command-line front end; this crate holds what can be stated and proved.

pub mod text;
pub mod lines;
pub mod commands;
pub mod java;
pub mod jbr;
pub mod config;
pub mod downloadable;
pub mod hash;
pub mod paper;
pub mod lock;
pub mod sources;
