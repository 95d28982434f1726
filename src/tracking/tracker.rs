//! Device position tracker which uses a sliding window of acceleration data
//! samples to help filter the signal from the noise.

use super::samples::{inliers, next_slot, ring_push, Samples};
use crate::accelerometer::RawAccelerometer;
use crate::error::Error;
use crate::vector::{mean_of, values_of, Vector};
use vstd::prelude::*;

verus! {

/// The trimmed mean of a sequence of samples, as `Samples::trimmed_mean`
/// computes it for a buffer of the given capacity.
pub open spec fn trimmed_mean_of<V: Vector>(samples: Seq<V>, capacity: int) -> Seq<int> {
    mean_of(values_of(inliers(samples, capacity)), V::axes())
}

/// Device position tracker which filters noisy accelerometer data using
/// statistical methods: each reading goes into a buffer of raw samples, and
/// the trimmed mean of that buffer into a second buffer, whose mean is the
/// smoothed acceleration.
pub struct Tracker<V, A, const L: usize> {
    /// The underlying accelerometer device
    accelerometer: A,
    /// Raw samples of accelerometer data
    raw_samples: Samples<V, L>,
    /// Historical trimmed mean values used to compute the smoothed mean
    mean_samples: Samples<V, L>,
}

impl<V: Vector, A: RawAccelerometer<V>, const L: usize> Tracker<V, A, L> {
    /// The buffer of raw samples.
    pub closed spec fn spec_raw_samples(&self) -> Samples<V, L> {
        self.raw_samples
    }

    /// The buffer of trimmed means of the raw samples.
    pub closed spec fn spec_mean_samples(&self) -> Samples<V, L> {
        self.mean_samples
    }

    /// The underlying accelerometer device.
    pub closed spec fn spec_accelerometer(&self) -> A {
        self.accelerometer
    }

    /// Well-formedness: both buffers are well formed.
    pub open spec fn wf(&self) -> bool {
        &&& self.spec_raw_samples().wf()
        &&& self.spec_mean_samples().wf()
    }

    /// What one successful reading does to the buffers: `sample` goes into
    /// the raw buffer, and the trimmed mean of the raw buffer after that goes
    /// into the buffer of means.
    pub open spec fn took_sample(before: Self, after: Self, sample: V) -> bool {
        let raw = before.spec_raw_samples();
        let means = before.spec_mean_samples();
        let slot = next_slot(means.spec_samples().len(), means.spec_position(), L as nat);
        &&& after.spec_raw_samples().spec_samples() == ring_push(
            raw.spec_samples(),
            raw.spec_position(),
            L as nat,
            sample,
        )
        &&& after.spec_raw_samples().spec_position() == (raw.spec_position() + 1) % (L as nat)
        &&& 0 <= slot < after.spec_mean_samples().spec_samples().len()
        &&& after.spec_mean_samples().spec_samples()[slot].values() == trimmed_mean_of(
            after.spec_raw_samples().spec_samples(),
            L as int,
        )
        &&& after.spec_mean_samples().spec_samples() == ring_push(
            means.spec_samples(),
            means.spec_position(),
            L as nat,
            after.spec_mean_samples().spec_samples()[slot],
        )
        &&& after.spec_mean_samples().spec_position() == (means.spec_position() + 1) % (L as nat)
    }

    /// Create a new device position tracker for the given accelerometer
    pub fn new(accelerometer: A) -> (r: Self)
        ensures
            r.wf(),
            r.spec_accelerometer() == accelerometer,
            r.spec_raw_samples().spec_samples() == Seq::<V>::empty(),
            r.spec_mean_samples().spec_samples() == Seq::<V>::empty(),
    {
        Tracker { accelerometer, raw_samples: Samples::new(), mean_samples: Samples::new() }
    }

    /// Borrow the underlying accelerometer device
    pub fn accelerometer(&self) -> (r: &A)
        ensures
            *r == self.spec_accelerometer(),
    {
        &self.accelerometer
    }

    /// Consume `self` and return the underlying accelerometer
    pub fn into_accelerometer(self) -> (r: A)
        ensures
            r == self.spec_accelerometer(),
    {
        self.accelerometer
    }

    /// Borrow the underlying buffer of `Samples`
    pub fn samples(&self) -> (r: &Samples<V, L>)
        ensures
            *r == self.spec_raw_samples(),
    {
        &self.raw_samples
    }

    /// Read a sample from the underlying device and store it in the internal
    /// sample buffer, then store the trimmed mean of that buffer in the
    /// buffer of means. A read error is returned unchanged, and leaves both
    /// buffers as they were.
    pub fn update(&mut self) -> (r: Result<V, Error<A::Error>>)
        requires
            old(self).wf(),
            L > 0,
        ensures
            final(self).wf(),
            match r {
                Ok(sample) => Self::took_sample(*old(self), *final(self), sample),
                Err(_) => {
                    &&& final(self).spec_raw_samples() == old(self).spec_raw_samples()
                    &&& final(self).spec_mean_samples() == old(self).spec_mean_samples()
                },
            },
    {
        let sample = match self.accelerometer.accel_raw() {
            Ok(s) => s,
            Err(e) => {
                return Err(e);
            },
        };
        self.raw_samples.update(sample);
        let m = self.raw_samples.trimmed_mean();
        self.mean_samples.update(m);
        Ok(sample)
    }

    /// Obtain a moving average (trimmed mean) of the current accelerometer
    /// data (after culling outliers).
    ///
    /// This takes a sample of accelerometer data first, with `update`; a read
    /// error is returned unchanged. To avoid this, call `samples` and use
    /// the buffer's own mean.
    pub fn mean_acceleration(&mut self) -> (r: Result<V, Error<A::Error>>)
        requires
            old(self).wf(),
            L > 0,
        ensures
            final(self).wf(),
            match r {
                Ok(m) => {
                    &&& exists|sample: V| Self::took_sample(*old(self), *final(self), sample)
                    &&& m.values() == crate::tracking::samples::center_of(
                        final(self).spec_mean_samples().spec_samples(),
                    )
                },
                Err(_) => {
                    &&& final(self).spec_raw_samples() == old(self).spec_raw_samples()
                    &&& final(self).spec_mean_samples() == old(self).spec_mean_samples()
                },
            },
    {
        match self.update() {
            Ok(_) => Ok(self.mean_samples.mean()),
            Err(e) => Err(e),
        }
    }
}

} // verus!
