//! The decisions behind each sub-command of the tool.

pub mod bot;
pub mod init;
pub mod remove;
pub mod run;
pub mod stop;
pub mod sync;
pub mod update;
