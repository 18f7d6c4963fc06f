//! Screen locker core: shared types, daemon policy, software renderer and curtain state.

pub mod common;
pub mod curtain;
pub mod daemon;
pub mod renderer;
pub mod ui;
