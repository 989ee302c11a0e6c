//! Core of an SSH tunnel hub: configuration resolution, per-channel
//! supervision with backoff, an orchestrator state machine, and the
//! line-oriented control-plane protocol, all with verified contracts.
//! Network and file I/O live outside this crate; the functions here
//! take the outcomes of such calls as plain values and decide what
//! happens next.

pub mod backoff;
pub mod config;
pub mod control;
pub mod error;
pub mod port_check;
pub mod runner;
pub mod service;
pub mod ssh_config;
pub mod text;
