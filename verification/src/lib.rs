//! Verified core of the AstrBot launcher: the process slot state machine,
//! the runtime monitor's decisions, configuration records and their
//! migration, release and download bookkeeping, proxy handling and the
//! parsing of Windows TCP listener tables.

pub mod error;
pub mod process;
pub mod registry;
pub mod manager;
pub mod monitor;
pub mod tcp_table;
pub mod locking;
pub mod github;
pub mod text;
pub mod proxy;
pub mod python;
pub mod config;
pub mod versions;
pub mod migration;
pub mod download;
pub mod lifecycle;
pub mod snapshot;
pub mod commands;
