//! A small mesh-and-scene library: a verified reader for the text OBJ mesh
//! format, and the switchable light state of a fixed demo scene. Everything
//! that touches a window, the graphics API or floating-point arithmetic
//! lives outside this crate; the library hands such code plain values.

pub mod lights;
pub mod mesh;
pub mod obj;
pub mod scalar;
pub mod text;
