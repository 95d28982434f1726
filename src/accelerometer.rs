//! Traits for reading acceleration measurements from accelerometers.

use crate::error::Error;
use crate::vector::Vector;
use vstd::prelude::*;

verus! {

/// Read raw acceleration vectors of type `V: Vector`.
///
/// This is implemented by accelerometer drivers, and should use a vector
/// type which best matches the raw accelerometer data.
pub trait RawAccelerometer<V: Vector> {
    /// Error type
    type Error;

    /// Get raw acceleration data from the accelerometer.
    ///
    /// It is expected that this is called once data is known to be ready and
    /// valid.
    fn accel_raw(&mut self) -> Result<V, Error<Self::Error>>;
}

} // verus!
