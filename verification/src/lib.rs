//! A minimal ray tracer: one ray per pixel is cast from a fixed camera
//! through a viewport into a scene of spheres; the nearest hit within a
//! depth range colors the pixel.  All scene arithmetic is exact
//! fixed-point integer arithmetic.

pub mod fixed;
pub mod geom;
pub mod color;
pub mod sphere;
pub mod intersect;
pub mod scene;
pub mod canvas;
pub mod render;
