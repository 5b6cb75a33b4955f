use optifi::errors::ErrorCode;
use optifi::pricing::{
    delta_clip, intrinsic_value_single, option_intrinsic_value, option_reg_t_margin,
    reg_t_margin_single, SpotInputOption,
};

#[test]
fn intrinsic_call_and_put_at_one_spot() {
    let spot = 48_400_000_000u64;
    let strike = 48_000_000_000u64;
    assert_eq!(intrinsic_value_single(spot, strike, true), 400_000_000);
    assert_eq!(intrinsic_value_single(spot, strike, false), 0);
    assert_eq!(intrinsic_value_single(strike, spot, false), 400_000_000);
}

#[test]
fn intrinsic_matrix_over_scenarios() {
    let spots = SpotInputOption::MultiSpots(vec![100, 200]);
    let r = option_intrinsic_value(&spots, &vec![150, 150], &vec![1, 0]).unwrap();
    assert_eq!(r, vec![vec![0, 50], vec![50, 0]]);
}

#[test]
fn intrinsic_single_spot_one_column() {
    let spots = SpotInputOption::SingleSpot(120);
    let r = option_intrinsic_value(&spots, &vec![100, 130, 100], &vec![1, 1, 0]).unwrap();
    assert_eq!(r, vec![vec![20], vec![0], vec![0]]);
}

#[test]
fn intrinsic_never_negative() {
    let spots = SpotInputOption::MultiSpots(vec![0, 1, 50, u64::MAX]);
    let r = option_intrinsic_value(&spots, &vec![0, 50, u64::MAX], &vec![1, 0, 1]).unwrap();
    for row in r {
        for v in row {
            assert!(v <= u64::MAX);
        }
    }
    assert_eq!(intrinsic_value_single(0, u64::MAX, true), 0);
    assert_eq!(intrinsic_value_single(u64::MAX, 0, false), 0);
}

#[test]
fn intrinsic_rejects_mismatched_lengths() {
    let spots = SpotInputOption::SingleSpot(100);
    assert_eq!(
        option_intrinsic_value(&spots, &vec![150], &vec![1, 0]),
        Err(ErrorCode::LengthMismatch)
    );
}

#[test]
fn reg_t_margin_values() {
    // stressed notional is 0.3 * 100 = 30
    assert_eq!(reg_t_margin_single(100_000_000, 110_000_000, 300_000, true), 20_000_000);
    assert_eq!(reg_t_margin_single(100_000_000, 110_000_000, 300_000, false), 30_000_000);
    // far out of the money: half the stressed notional
    assert_eq!(reg_t_margin_single(100_000_000, 200_000_000, 300_000, true), 15_000_000);
    assert_eq!(reg_t_margin_single(100_000_000, 20_000_000, 300_000, false), 15_000_000);
}

#[test]
fn reg_t_margin_matrix_and_error() {
    let spots = SpotInputOption::MultiSpots(vec![100_000_000, 200_000_000]);
    let r = option_reg_t_margin(&spots, &vec![110_000_000], 300_000, &vec![1]).unwrap();
    assert_eq!(r, vec![vec![20_000_000, 60_000_000]]);
    assert_eq!(
        option_reg_t_margin(&spots, &vec![110_000_000], 300_000, &vec![]),
        Err(ErrorCode::LengthMismatch)
    );
}

#[test]
fn delta_floor_keeps_sign() {
    let mut d = vec![0, 10_000, -10_000, 600_000, -50_000, 49_999, -1_000_000];
    delta_clip(&mut d);
    assert_eq!(d, vec![50_000, 50_000, -50_000, 600_000, -50_000, 50_000, -1_000_000]);
}

#[test]
fn reg_t_margin_large_stress_and_overflow() {
    assert_eq!(reg_t_margin_single(100_000_000, 110_000_000, 2_000_000, false), 200_000_000);
    let spots = SpotInputOption::MultiSpots(vec![1, u64::MAX]);
    assert_eq!(option_reg_t_margin(&spots, &vec![1], 2_000_000, &vec![1]), Err(ErrorCode::Overflow));
    let spots = SpotInputOption::SingleSpot(u64::MAX);
    assert!(option_reg_t_margin(&spots, &vec![1], 1_000_000, &vec![1]).is_ok());
}
