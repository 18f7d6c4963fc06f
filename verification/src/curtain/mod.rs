//! The curtain: what covers the outputs while the session is locked.

pub mod backdrop;
pub mod background;
pub mod commit;
pub mod events;
pub mod lifecycle;
pub mod partners;
pub mod prepare;
pub mod redraw;
pub mod render;
pub mod scene;
pub mod session;
pub mod slideshow;
pub mod startup;
pub mod state;
pub mod surface;
pub mod transition;
