//! Exact, float-free scene logic for a letterboxed 3D view: the virtual
//! screen and its scale, the pointer mapping, ray/box picking and the
//! vertical settle of a dropped object.

pub mod rational;
pub mod geometry;
pub mod gravity;
pub mod mouse;
pub mod pick;
pub mod picking;
pub mod screen;
