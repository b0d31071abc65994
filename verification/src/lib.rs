//! Session engine of a terminal file browser: key bindings, the directory
//! model, the input-mode state machine and the shell synchronisation rules.
//!
//! Nothing in this crate touches the disk, the terminal or a process. Each
//! operation takes what was read from the outside world as plain values and
//! answers with the next state and the effect the caller has to carry out.

pub mod config;
pub mod entry;
pub mod keys;
pub mod listing;
pub mod manager;
pub mod metadata;
pub mod paths;
pub mod procfs;
pub mod pty;
pub mod session;
pub mod text;
