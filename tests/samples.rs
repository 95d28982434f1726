use accelerometer::tracking::{Samples, Tracker};
use accelerometer::vector::{I16x2, I16x3};
use accelerometer::{Error, ErrorKind, RawAccelerometer};

#[test]
fn ring_keeps_last_three_in_slot_order() {
    let a = I16x2::new(1, 1);
    let b = I16x2::new(2, 2);
    let c = I16x2::new(3, 3);
    let d = I16x2::new(4, 4);
    let e = I16x2::new(5, 5);
    let mut samples: Samples<I16x2, 3> = Samples::new();
    for s in [a, b, c, d, e] {
        samples.update(s);
    }
    assert_eq!(samples.len(), 3);
    assert_eq!(samples.iter(), &[d, e, c]);
}

#[test]
fn ring_grows_until_full() {
    let mut samples: Samples<I16x2, 3> = Samples::new();
    assert_eq!(samples.len(), 0);
    samples.update(I16x2::new(1, 0));
    assert_eq!(samples.len(), 1);
    samples.update(I16x2::new(2, 0));
    assert_eq!(samples.iter(), &[I16x2::new(1, 0), I16x2::new(2, 0)]);
    samples.update(I16x2::new(3, 0));
    samples.update(I16x2::new(4, 0));
    assert_eq!(samples.len(), 3);
}

#[test]
fn capacity_one_holds_the_latest() {
    let mut samples: Samples<I16x2, 1> = Samples::new();
    samples.update(I16x2::new(1, 2));
    samples.update(I16x2::new(3, 4));
    assert_eq!(samples.iter(), &[I16x2::new(3, 4)]);
    assert_eq!(samples.trimmed_mean(), I16x2::new(3, 4));
}

#[test]
fn trimmed_mean_of_repeated_sample_is_the_sample() {
    let v = I16x3::new(-7, 100, 3);
    let mut samples: Samples<I16x3, 8> = Samples::new();
    for _ in 0..8 {
        samples.update(v);
    }
    assert_eq!(samples.trimmed_mean(), v);
    assert_eq!(samples.mean(), v);
    let mut partial: Samples<I16x3, 8> = Samples::new();
    for _ in 0..3 {
        partial.update(v);
    }
    assert_eq!(partial.trimmed_mean(), v);
}

fn with_outlier() -> Samples<I16x3, 16> {
    let mut samples: Samples<I16x3, 16> = Samples::new();
    for _ in 0..15 {
        samples.update(I16x3::new(0, 0, 0));
    }
    samples.update(I16x3::new(160, 0, 0));
    samples
}

#[test]
fn trimmed_mean_drops_an_outlier() {
    let samples = with_outlier();
    assert_eq!(samples.mean(), I16x3::new(10, 0, 0));
    assert_eq!(samples.trimmed_mean(), I16x3::new(0, 0, 0));
}

#[test]
fn iter_trimmed_skips_the_outlier() {
    let samples = with_outlier();
    let mut it = samples.iter_trimmed();
    let mut kept = 0;
    while let Some(v) = it.next() {
        assert_eq!(v, I16x3::new(0, 0, 0));
        kept += 1;
    }
    assert_eq!(kept, 15);
}

#[test]
fn trimmed_mean_keeps_spread_samples() {
    let mut samples: Samples<I16x2, 4> = Samples::new();
    for s in [I16x2::new(0, 0), I16x2::new(2, 0), I16x2::new(4, 0), I16x2::new(6, 0)] {
        samples.update(s);
    }
    assert_eq!(samples.trimmed_mean(), I16x2::new(3, 0));
}

#[test]
fn variance_uses_the_nominal_capacity() {
    let mut samples: Samples<I16x3, 32> = Samples::new();
    samples.update(I16x3::new(0, 0, 0));
    samples.update(I16x3::new(10, 0, 0));
    assert_eq!(samples.mean(), I16x3::new(5, 0, 0));
    assert_eq!(samples.trimmed_mean(), I16x3::new(0, 0, 0));
    assert_eq!(samples.iter_trimmed().next(), None);
}

#[test]
fn empty_buffer_means_are_zero() {
    let samples: Samples<I16x3, 4> = Samples::new();
    assert_eq!(samples.mean(), I16x3::new(0, 0, 0));
    assert_eq!(samples.trimmed_mean(), I16x3::new(0, 0, 0));
}

struct Scripted {
    readings: Vec<Result<I16x3, ErrorKind>>,
    next: usize,
}

impl RawAccelerometer<I16x3> for Scripted {
    type Error = u8;

    fn accel_raw(&mut self) -> Result<I16x3, Error<u8>> {
        let r = self.readings[self.next];
        self.next += 1;
        r.map_err(|kind| Error::new_with_cause(kind, 7))
    }
}

#[test]
fn tracker_feeds_both_buffers() {
    let device = Scripted {
        readings: vec![Ok(I16x3::new(4, 0, 0)), Ok(I16x3::new(8, 0, 0))],
        next: 0,
    };
    let mut tracker: Tracker<I16x3, Scripted, 4> = Tracker::new(device);
    assert_eq!(tracker.update().unwrap(), I16x3::new(4, 0, 0));
    assert_eq!(tracker.samples().iter(), &[I16x3::new(4, 0, 0)]);
    assert_eq!(tracker.mean_acceleration().unwrap(), I16x3::new(5, 0, 0));
    assert_eq!(tracker.samples().len(), 2);
    assert_eq!(tracker.accelerometer().next, 2);
    assert_eq!(tracker.into_accelerometer().next, 2);
}

#[test]
fn tracker_passes_errors_through() {
    let device = Scripted {
        readings: vec![Ok(I16x3::new(1, 2, 3)), Err(ErrorKind::Bus)],
        next: 0,
    };
    let mut tracker: Tracker<I16x3, Scripted, 4> = Tracker::new(device);
    tracker.update().unwrap();
    let err = tracker.update().unwrap_err();
    assert_eq!(err.kind(), ErrorKind::Bus);
    assert_eq!(err.cause(), Some(&7));
    assert_eq!(tracker.samples().iter(), &[I16x3::new(1, 2, 3)]);
}

#[test]
fn default_samples_are_empty() {
    let mut samples: Samples<I16x2, 2> = Samples::default();
    assert_eq!(samples.len(), 0);
    samples.update(I16x2::new(1, 1));
    assert_eq!(samples.iter(), &[I16x2::new(1, 1)]);
}

#[test]
fn trimmed_iteration_ends_for_good() {
    let samples = with_outlier();
    let mut it = samples.iter_trimmed();
    while it.next().is_some() {}
    assert_eq!(it.next(), None);
    assert_eq!(it.next(), None);
}

#[test]
fn full_buffer_keeps_its_length_and_changes_one_slot() {
    let mut samples: Samples<I16x2, 3> = Samples::new();
    for k in 0..3 {
        samples.update(I16x2::new(k, k));
    }
    samples.update(I16x2::new(9, 9));
    assert_eq!(samples.len(), 3);
    assert_eq!(samples.iter(), &[I16x2::new(9, 9), I16x2::new(1, 1), I16x2::new(2, 2)]);
}
