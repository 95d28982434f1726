//! Orientation tracker

use super::Orientation;
use crate::vector::{Component, Xyz};
use vstd::prelude::*;

verus! {

/// Absolute value of an integer.
pub open spec fn abs(v: int) -> int {
    if v < 0 {
        -v
    } else {
        v
    }
}

/// The orientation that a reading `(x, y, z)` indicates: the first axis, in
/// the order X, Y, Z, whose magnitude exceeds `threshold` decides, by its sign;
/// `Unknown` when none does.
pub open spec fn classify(x: int, y: int, z: int, threshold: int) -> Orientation {
    if abs(x) > threshold {
        if x >= 0 {
            Orientation::LandscapeUp
        } else {
            Orientation::LandscapeDown
        }
    } else if abs(y) > threshold {
        if y >= 0 {
            Orientation::PortraitUp
        } else {
            Orientation::PortraitDown
        }
    } else if abs(z) > threshold {
        if z >= 0 {
            Orientation::FaceUp
        } else {
            Orientation::FaceDown
        }
    } else {
        Orientation::Unknown
    }
}

/// Orientation tracker: computes a device's `Orientation` from accelerometer
/// readings.
pub struct Tracker {
    /// Threshold at which acceleration due to gravity is registered
    threshold: i32,
    /// Last orientation type read from the accelerometer
    last_orientation: Orientation,
}

impl Tracker {
    /// The threshold the tracker was created with.
    pub closed spec fn spec_threshold(&self) -> int {
        self.threshold as int
    }

    /// The last orientation other than `Unknown` that the tracker computed.
    pub closed spec fn spec_orientation(&self) -> Orientation {
        self.last_orientation
    }

    /// Create a new orientation tracker.
    ///
    /// The `threshold` value should be slightly less than the absolute value
    /// of the reading you get from the accelerometer when the device is lying
    /// in a position where two of the axes are reading 0 (i.e. getting a
    /// strong reading from one axis alone).
    pub fn new(threshold: i32) -> (r: Self)
        ensures
            r.spec_threshold() == threshold,
            r.spec_orientation() == Orientation::Unknown,
    {
        Tracker { threshold, last_orientation: Orientation::Unknown }
    }

    /// Update the tracker's internal state from the given acceleration vector,
    /// returning a new computed orientation value.
    ///
    /// The remembered orientation changes only when the result is not
    /// `Unknown`.
    pub fn update<C: Component>(&mut self, acceleration: Xyz<C>) -> (r: Orientation)
        ensures
            r == classify(
                acceleration.x.value(),
                acceleration.y.value(),
                acceleration.z.value(),
                old(self).spec_threshold(),
            ),
            final(self).spec_threshold() == old(self).spec_threshold(),
            final(self).spec_orientation() == if r == Orientation::Unknown {
                old(self).spec_orientation()
            } else {
                r
            },
    {
        let x = acceleration.x.to_i32();
        let y = acceleration.y.to_i32();
        let z = acceleration.z.to_i32();
        proof {
            C::lemma_range();
            acceleration.x.lemma_in_range();
            acceleration.y.lemma_in_range();
            acceleration.z.lemma_in_range();
        }
        let ax = if x < 0 { -x } else { x };
        let ay = if y < 0 { -y } else { y };
        let az = if z < 0 { -z } else { z };
        let result = if ax > self.threshold {
            if x >= 0 {
                Orientation::LandscapeUp
            } else {
                Orientation::LandscapeDown
            }
        } else if ay > self.threshold {
            if y >= 0 {
                Orientation::PortraitUp
            } else {
                Orientation::PortraitDown
            }
        } else if az > self.threshold {
            if z >= 0 {
                Orientation::FaceUp
            } else {
                Orientation::FaceDown
            }
        } else {
            Orientation::Unknown
        };
        if result != Orientation::Unknown {
            self.last_orientation = result;
        }
        result
    }

    /// Get the last known orientation reading for the device.
    ///
    /// Use `Tracker::update` to obtain a new reading.
    pub fn orientation(&self) -> (r: Orientation)
        ensures
            r == self.spec_orientation(),
    {
        self.last_orientation
    }
}

} // verus!
