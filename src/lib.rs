//! A framebuffer document viewer's core: the viewport model, the key decoder,
//! page placement with visibility culling, and frame buffer handling.
//!
//! Lengths are fixed-point integers: `viewport::UNIT` subdivisions make one
//! pixel (screen space) or one document unit (page space).
pub mod frame;
pub mod keys;
pub mod layout;
pub mod options;
pub mod session;
pub mod viewport;
