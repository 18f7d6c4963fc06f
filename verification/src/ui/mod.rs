//! The lock screen's shell: what is typed, what is shown and what has to be redrawn.

pub mod emergency;
pub mod floating;
pub mod input;
pub mod overlay;
pub mod shell;
pub mod text_cache;
