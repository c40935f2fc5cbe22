//! Verified core of a third-person scene explorer: mesh layouts, the
//! checkerboard texture, held-key movement intent and event routing.
pub mod control;
pub mod input;
pub mod mesh;
pub mod texture;
