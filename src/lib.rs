//! Render layers: fixed-resolution offscreen surfaces that are letterboxed
//! onto the physical screen, with cursor coordinates mapped back into each
//! layer's own pixel space.

pub mod layer;
pub mod layout;
pub mod pipeline;
pub mod store;
