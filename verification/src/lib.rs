//! A first-person camera for a full-screen ray marcher, in exact fixed-point
//! arithmetic.
//!
//! Every quantity is an integer. Dimensionless values (the components of a unit
//! vector, a sine, a normalized cursor offset) count millionths; a frame's
//! duration counts microseconds; what a frame integrates (an angle, a position)
//! counts million-millionths, so that one step of the integration is a plain
//! product with no rounding in it.

pub mod fixed;
pub mod vector;
pub mod orientation;
pub mod orthonormal;
pub mod controls;
pub mod camera;
pub mod frame;
