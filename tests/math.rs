use accelerometer::math::{quadrant_offset, quadrant_sign, sqrt_approx};

fn sqrt_f32(n: f32) -> f32 {
    f32::from_bits(sqrt_approx(n.to_bits()))
}

#[test]
fn f32ext_sqrt_approx_test() {
    let sqrt_test_vectors: &[(f32, f32)] = &[
        (1.0, 1.0),
        (2.0, 1.414),
        (3.0, 1.732),
        (4.0, 2.0),
        (5.0, 2.236),
        (6.0, 2.449),
        (7.0, 2.645),
        (8.0, 2.828),
        (9.0, 3.0),
        (10.0, 3.162),
        (100.0, 10.0),
        (250.0, 15.811),
        (500.0, 22.36),
        (1000.0, 31.622),
        (2500.0, 50.0),
        (5000.0, 70.710),
        (10000.0, 100.0),
        (25000.0, 158.113),
        (50000.0, 223.606),
        (100000.0, 316.227),
        (250000.0, 500.0),
        (500000.0, 707.106),
        (1000000.0, 1000.0),
        (2500000.0, 1581.138),
        (5000000.0, 2236.067),
        (10000000.0, 3162.277),
        (25000000.0, 5000.0),
        (50000000.0, 7071.067),
        (100000000.0, 10000.0),
    ];
    for (n, n_sqrt) in sqrt_test_vectors {
        let allowed_delta = n * 0.05;
        let actual_delta = sqrt_f32(*n) - n_sqrt;
        assert!(
            actual_delta <= allowed_delta,
            "delta {} too large: {} vs {}",
            actual_delta,
            sqrt_f32(*n),
            n_sqrt
        );
    }
}

#[test]
fn math_sqrt_approx_test() {
    let sqrt_test_vectors = [
        (1.0f32, 1.0f32),
        (2.0, 1.414),
        (3.0, 1.732),
        (4.0, 2.0),
        (5.0, 2.236),
        (10.0, 3.162),
        (100.0, 10.0),
        (250.0, 15.811),
        (500.0, 22.36),
        (1000.0, 31.622),
        (2500.0, 50.0),
        (5000.0, 70.710),
        (1000000.0, 1000.0),
        (2500000.0, 1581.138),
        (5000000.0, 2236.067),
        (10000000.0, 3162.277),
        (25000000.0, 5000.0),
        (50000000.0, 7071.067),
        (100000000.0, 10000.0),
    ];
    for (x, expected) in &sqrt_test_vectors {
        let sqrt_x = sqrt_f32(*x);
        let allowed_delta = x * 0.05;
        let actual_delta = sqrt_x - expected;
        assert!(
            actual_delta <= allowed_delta,
            "delta {} too large: {} vs {}",
            actual_delta,
            sqrt_x,
            expected
        );
    }
}

#[test]
fn sqrt_relative_error_at_powers_of_ten() {
    let points = [1.0f32, 10.0, 100.0, 1e3, 1e4, 1e5, 1e6, 1e7, 5e7, 1e8];
    for n in points {
        let exact = (n as f64).sqrt();
        let approx = sqrt_f32(n) as f64;
        let relative = (approx - exact).abs() / exact;
        assert!(relative <= 0.05, "relative error {} at {}", relative, n);
    }
}

#[test]
fn sqrt_exact_on_even_powers_of_two() {
    assert_eq!(sqrt_f32(1.0), 1.0);
    assert_eq!(sqrt_f32(4.0), 2.0);
    assert_eq!(sqrt_f32(16.0), 4.0);
    assert_eq!(sqrt_f32(0.25), 0.5);
    assert_eq!(sqrt_approx(0x4080_0000), 0x4000_0000);
}

#[test]
fn sqrt_changes_its_argument() {
    assert_ne!(sqrt_approx(100.0f32.to_bits()), 100.0f32.to_bits());
    assert_eq!(sqrt_approx(0x4000_0000), 0x3FC0_0000);
}

#[test]
fn quadrant_offsets_follow_signs() {
    assert_eq!(quadrant_offset(1.0f32.to_bits(), 1.0f32.to_bits()), 0);
    assert_eq!(quadrant_offset(1.0f32.to_bits(), (-1.0f32).to_bits()), 2);
    assert_eq!(quadrant_offset((-1.0f32).to_bits(), (-1.0f32).to_bits()), 2);
    assert_eq!(quadrant_offset((-1.0f32).to_bits(), 1.0f32.to_bits()), 4);
    assert_eq!(quadrant_offset(0.0f32.to_bits(), 0.0f32.to_bits()), 0);
}

#[test]
fn quadrant_sign_flips_when_signs_differ() {
    let a = 0.25f32.to_bits();
    assert_eq!(quadrant_sign(1.0f32.to_bits(), 1.0f32.to_bits(), a), a);
    assert_eq!(quadrant_sign((-1.0f32).to_bits(), (-2.0f32).to_bits(), a), a);
    assert_eq!(
        f32::from_bits(quadrant_sign(1.0f32.to_bits(), (-1.0f32).to_bits(), a)),
        -0.25
    );
    assert_eq!(
        f32::from_bits(quadrant_sign((-3.0f32).to_bits(), 1.0f32.to_bits(), a)),
        -0.25
    );
}
