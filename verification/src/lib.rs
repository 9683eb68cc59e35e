//! A terminal multi-window manager core: overlapping rectangular panels with
//! z-ordered hit-testing, focus tracking, and a pointer-driven move/resize
//! gesture protocol. Rendering and event acquisition live outside this crate;
//! the state machine here is fully specified and verified.

pub mod geom;
pub mod manager;
pub mod window;
