//! Types shared by the daemon, the curtain and the renderer.

pub mod battery;
pub mod config;
pub mod error;
pub mod ipc;
pub mod line;
pub mod merge;
pub mod now_playing;
pub mod path;
pub mod power;
pub mod secret;
pub mod settings;
pub mod text;
pub mod themes;
pub mod time;
pub mod toml_value;
pub mod weather;
