//! Verified core of the WEFT OS daemons: IPC framing, the application
//! session registry and supervisor decisions, the file-portal path policy,
//! package validation, and the small parsers the command-line tools share.

mod build_meta;
pub mod path;
pub mod text;
pub mod lines;
pub mod sort;
pub mod portal;
pub mod frame;
pub mod messages;
pub mod appd;
pub mod store;
pub mod pack;
pub mod mount_helper;
pub mod runtime;
pub mod compositor;
pub mod shell;

pub use build_meta::{current, WorkspaceMetadata};
