//! A small scene runtime: an entity arena with a parent/child transform
//! hierarchy and ordered per-frame systems, and the integer side of a
//! terrain heightfield (grid layout, index buffer, height-sample cells).
//!
//! Transform and point values are generic: the arena never does arithmetic on
//! them, it only decides which values are combined, in which order, and where
//! the results go. The combining functions are passed in by the caller.
pub mod components;
pub mod ecs;
pub mod terrain;
