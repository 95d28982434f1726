//! Accelerometer support: integer vector types, approximate math on float bit
//! patterns, outlier-rejecting sample buffers and orientation tracking, with
//! their behaviour stated as contracts and proved.

pub mod accelerometer;
pub mod error;
pub mod math;
pub mod orientation;
pub mod tracking;
pub mod vector;

pub use crate::accelerometer::RawAccelerometer;
pub use crate::error::{Error, ErrorKind};
pub use crate::orientation::Orientation;
pub use crate::vector::{Component, Vector, Vector2D, Vector3D};
