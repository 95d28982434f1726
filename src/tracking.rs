//! Device position tracking which uses statistical methods to filter noisy
//! accelerometer data (moving average computed from a trimmed mean with
//! outliers culled).

pub mod samples;
pub mod tracker;

pub use self::samples::{IterTrimmed, Samples};
pub use self::tracker::Tracker;
pub use crate::orientation::Orientation;
