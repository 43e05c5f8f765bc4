//! The application daemon: its protocol, session registry, request
//! dispatch, session supervision and launch commands.

pub mod ipc;
pub mod registry;
pub mod dispatch;
pub mod launch;
pub mod supervisor;
pub mod config;
pub mod mount;
pub mod session;
