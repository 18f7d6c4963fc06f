//! Daemon policy: authentication, suspending and socket safety.

pub mod auth;
pub mod ipc;
pub mod pam;
pub mod suspend;
