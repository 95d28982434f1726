use accelerometer::orientation::Tracker;
use accelerometer::vector::{I16x3, I8x3, U8x3};
use accelerometer::Orientation;

#[test]
fn landscape_then_unknown_keeps_last_orientation() {
    let mut tracker = Tracker::new(2);
    assert_eq!(tracker.orientation(), Orientation::Unknown);
    assert_eq!(tracker.update(I16x3::new(3, 0, 0)), Orientation::LandscapeUp);
    assert_eq!(tracker.orientation(), Orientation::LandscapeUp);
    assert_eq!(tracker.update(I16x3::new(0, 0, 0)), Orientation::Unknown);
    assert_eq!(tracker.orientation(), Orientation::LandscapeUp);
}

#[test]
fn x_takes_precedence_over_y() {
    let mut tracker = Tracker::new(2);
    assert_eq!(tracker.update(I16x3::new(3, 3, 0)), Orientation::LandscapeUp);
    assert_eq!(tracker.update(I16x3::new(-3, 3, 3)), Orientation::LandscapeDown);
}

#[test]
fn each_axis_and_sign() {
    let mut tracker = Tracker::new(2);
    assert_eq!(tracker.update(I8x3::new(0, 5, 0)), Orientation::PortraitUp);
    assert_eq!(tracker.update(I8x3::new(0, -5, 9)), Orientation::PortraitDown);
    assert_eq!(tracker.update(I8x3::new(1, 2, 3)), Orientation::FaceUp);
    assert_eq!(tracker.update(I8x3::new(-2, 2, -3)), Orientation::FaceDown);
    assert_eq!(tracker.orientation(), Orientation::FaceDown);
    assert_eq!(tracker.update(I8x3::new(-128, 0, 0)), Orientation::LandscapeDown);
}

#[test]
fn threshold_is_strict() {
    let mut tracker = Tracker::new(2);
    assert_eq!(tracker.update(I16x3::new(2, -2, 2)), Orientation::Unknown);
    assert_eq!(tracker.orientation(), Orientation::Unknown);
}

#[test]
fn negative_threshold_always_registers_x() {
    let mut tracker = Tracker::new(-1);
    assert_eq!(tracker.update(U8x3::new(0, 0, 0)), Orientation::LandscapeUp);
}

#[test]
fn orientation_predicates() {
    assert!(Orientation::FaceUp.is_flat());
    assert!(Orientation::FaceDown.is_flat());
    assert!(!Orientation::PortraitUp.is_flat());
    assert!(Orientation::LandscapeUp.is_landscape());
    assert!(Orientation::LandscapeDown.is_landscape());
    assert!(!Orientation::FaceUp.is_landscape());
    assert!(Orientation::PortraitUp.is_portrait());
    assert!(Orientation::PortraitDown.is_portrait());
    assert!(!Orientation::Unknown.is_portrait());
    assert!(!Orientation::Unknown.is_flat());
    assert!(!Orientation::Unknown.is_landscape());
}

#[test]
fn threshold_in_thousandths_classifies_scaled_readings() {
    let mut tracker = Tracker::new(800);
    assert_eq!(tracker.update(I16x3::new(12, -30, -981)), Orientation::FaceDown);
    assert_eq!(tracker.update(I16x3::new(5, 990, 40)), Orientation::PortraitUp);
}
