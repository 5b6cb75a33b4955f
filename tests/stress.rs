use optifi::errors::ErrorCode;
use optifi::stress::{
    generate_stress_spot, interpolate_stress_changes, stress_function, stress_price_changes,
    stress_spots,
};

#[test]
fn legacy_generator_spots() {
    let r = generate_stress_spot(100_000_000, 300_000, 2);
    assert_eq!(r, vec![70_000_000, 85_000_000, 100_000_000, 115_000_000, 130_000_000]);
}

#[test]
fn legacy_generator_is_increasing_with_extremes() {
    let r = generate_stress_spot(48_400_000_000, 300_000, 5);
    assert_eq!(r.len(), 11);
    for w in r.windows(2) {
        assert!(w[0] <= w[1]);
    }
    let (down, up) = stress_spots(48_400_000_000, 300_000);
    assert_eq!(r[0], down);
    assert_eq!(r[10], up);
    assert_eq!(down, 33_880_000_000);
    assert_eq!(up, 62_920_000_000);
}

#[test]
fn interpolation_fills_both_ends() {
    assert_eq!(interpolate_stress_changes(-30, 50, 2), vec![-30, -10, 30, 50]);
    assert_eq!(interpolate_stress_changes(50, -30, 2), vec![50, 30, -10, -30]);
}

#[test]
fn interpolation_rounds_toward_zero() {
    assert_eq!(interpolate_stress_changes(0, 10, 3), vec![0, 1, 3, 7, 9, 10]);
    assert_eq!(interpolate_stress_changes(0, -10, 3), vec![0, -1, -3, -7, -9, -10]);
}

#[test]
fn interpolation_endpoints_exact() {
    for step in 1u8..=10 {
        let r = interpolate_stress_changes(-123_456, 987_654, step);
        assert_eq!(r.len(), 2 * step as usize);
        assert_eq!(r[0], -123_456);
        assert_eq!(r[r.len() - 1], 987_654);
    }
}

#[test]
fn price_changes_against_base() {
    assert_eq!(stress_price_changes(100, 70, 150, 2), vec![-30, -10, 30, 50]);
}

#[test]
fn stress_function_per_instrument() {
    let r = stress_function(
        100,
        &vec![90, 110],
        &vec![1, 0],
        1,
        &vec![15, 12],
        &vec![5, 30],
        &vec![40, 4],
    )
    .unwrap();
    assert_eq!(r.price, vec![15, 12]);
    assert_eq!(r.intrinsic_value, vec![10, 10]);
    assert_eq!(r.stress_price_delta, vec![vec![-10, 25], vec![18, -8]]);
}

#[test]
fn stress_function_errors() {
    let e = stress_function(100, &vec![90, 110], &vec![1, 0], 1, &vec![15], &vec![5, 30], &vec![40, 4]);
    assert!(matches!(e, Err(ErrorCode::LengthMismatch)));
    let e = stress_function(100, &vec![90], &vec![1], 1, &vec![u64::MAX], &vec![5], &vec![40]);
    assert!(matches!(e, Err(ErrorCode::Overflow)));
}

#[test]
fn scenarios_strictly_increase_when_steps_are_wide() {
    let r = generate_stress_spot(10, 300_000, 2);
    assert_eq!(r, vec![7, 8, 10, 11, 13]);
    let flat = generate_stress_spot(1, 300_000, 2);
    assert_eq!(flat, vec![0, 0, 1, 1, 1]);
}

#[test]
fn stress_endpoints_per_instrument() {
    let r = stress_function(100, &vec![90], &vec![1], 3, &vec![15], &vec![2], &vec![41]).unwrap();
    assert_eq!(r.stress_price_delta[0].len(), 6);
    assert_eq!(r.stress_price_delta[0][0], -13);
    assert_eq!(r.stress_price_delta[0][5], 26);
}
