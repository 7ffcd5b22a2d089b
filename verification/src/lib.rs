//! The logic of a graphing calculator: a camera that pans and zooms over the
//! plane, the grid behind the curves, the curves as meshes, and the equations
//! that they are drawn from.
//!
//! Nothing here touches a window or a device. The library decides and lays out;
//! whoever owns the camera and the screen does the arithmetic on coordinates and
//! the drawing. Numbers cross the border in one of two ways. Where the library has
//! to look at a number (is the scroll positive, what is the whole part of the zoom
//! level) it takes it as a [`scalar::Scalar`], the bit pattern of a
//! single-precision number. Where it only passes numbers on or has them combined,
//! it is generic in their type and is handed the functions that compute.
pub mod camera;
pub mod equation;
pub mod geometry;
pub mod grid;
pub mod pipeline;
pub mod scalar;
pub mod zoom;
