//! The rules of CloudFolder: what a mount configuration must satisfy, how a mount is
//! supervised, how a local Windows directory maps to a remote one, and what is handed
//! to `rclone` and `ssh` for it.
//!
//! Nothing here touches the machine beyond reading its clock. Functions take plain values,
//! decide, and return plain values; the application around the library performs the work.

pub mod agent;
pub mod arguments;
pub mod change_feed;
pub mod cleanup;
pub mod cli;
pub mod clock;
pub mod config;
pub mod encoding;
pub mod environment;
pub mod forward;
pub mod jobs;
pub mod json;
pub mod logger;
pub mod mounts;
pub mod rclone;
pub mod remote;
pub mod service;
pub mod setup;
pub mod shell;
pub mod sockaddr;
pub mod ssh;
pub mod supervisor;
pub mod text;
pub mod watch;
pub mod winpath;
