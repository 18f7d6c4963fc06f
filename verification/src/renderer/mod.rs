//! Software rendering: frames, pixel buffers and what is drawn into them.

pub mod buffer;
pub mod avatar;
pub mod cache;
pub mod copy;
pub mod crossfade;
pub mod frame;
pub mod icon;
pub mod shape;
pub mod shm;
