use optifi::errors::ErrorCode;
use optifi::margin::{_margin_function, amount_to_reserve, is_margin_sufficient, margin_function};

const YEAR: u64 = 31_536_000;

#[test]
fn tied_soonest_maturities_both_count() {
    // times to maturity 0.1, 0.1 and 0.5 years
    let t = vec![YEAR / 10, YEAR / 10, YEAR / 2];
    let r = margin_function(
        vec![-1, -1, 1],
        &t,
        &vec![1000, 2000, 500],
        &vec![100, 0, 50],
        &vec![vec![-10, 20], vec![-30, 40], vec![5, -5]],
    );
    // stress -65, floor -2500, premium add-on -160 from both tied instruments
    assert_eq!(r, Ok(-2725));
}

#[test]
fn liquidity_add_on_applies() {
    let r = margin_function(vec![-1], &vec![0], &vec![100], &vec![100], &vec![vec![0]]);
    assert_eq!(r, Ok(-400));
}

#[test]
fn long_only_covered_is_zero() {
    let r = margin_function(
        vec![2, 1],
        &vec![YEAR, YEAR * 2],
        &vec![500, 300],
        &vec![100, 0],
        &vec![vec![50, -20, 10], vec![30, 10, -5]],
    );
    assert_eq!(r, Ok(0));
}

#[test]
fn margin_never_positive_on_samples() {
    let users: Vec<Vec<i64>> = vec![vec![3, -2, 0], vec![-5, 4, 1], vec![1, 1, 1], vec![0, 0, 0]];
    for u in users {
        let r = margin_function(
            u,
            &vec![100, 200, 100],
            &vec![700, 50, 20],
            &vec![300, 0, 10],
            &vec![vec![-40, 0, 60], vec![15, -2, -9], vec![3, 3, -3]],
        )
        .unwrap();
        assert!(r <= 0);
    }
}

#[test]
fn margin_shape_errors() {
    assert_eq!(
        margin_function(vec![1, 2], &vec![1], &vec![1, 1], &vec![1, 1], &vec![vec![1], vec![1]]),
        Err(ErrorCode::LengthMismatch)
    );
    assert_eq!(
        margin_function(vec![], &vec![], &vec![], &vec![], &vec![]),
        Err(ErrorCode::EmptyInput)
    );
    assert_eq!(
        margin_function(vec![1], &vec![1], &vec![1], &vec![1], &vec![vec![]]),
        Err(ErrorCode::EmptyInput)
    );
    assert_eq!(
        margin_function(vec![1, 1], &vec![1, 1], &vec![1, 1], &vec![1, 1], &vec![vec![1, 2], vec![1]]),
        Err(ErrorCode::RaggedMatrix)
    );
}

#[test]
fn margin_overflow_reported() {
    assert_eq!(
        margin_function(vec![i64::MAX], &vec![1], &vec![1], &vec![1], &vec![vec![2]]),
        Err(ErrorCode::Overflow)
    );
    assert_eq!(
        margin_function(vec![i64::MAX], &vec![1], &vec![2], &vec![0], &vec![vec![0]]),
        Err(ErrorCode::Overflow)
    );
}

#[test]
fn reserve_and_admission() {
    assert_eq!(amount_to_reserve(-2725), 2725);
    assert_eq!(amount_to_reserve(0), 0);
    assert_eq!(amount_to_reserve(5), 0);
    assert_eq!(amount_to_reserve(i64::MIN), 1u64 << 63);
    assert!(is_margin_sufficient(3000, &[2725, 0, 275]));
    assert!(!is_margin_sufficient(2000, &[2725]));
    assert!(!is_margin_sufficient(u64::MAX, &[u64::MAX, 1]));
}

#[test]
fn margin_statistics_breakdown() {
    let t = vec![YEAR / 10, YEAR / 10, YEAR / 2];
    let r = _margin_function(
        vec![-1, -1, 1],
        100,
        &t,
        &vec![1000, 2000, 500],
        &vec![100, 0, 50],
        &vec![vec![-10, 20], vec![-30, 40], vec![5, -5]],
    )
    .unwrap();
    assert_eq!((r.net_qty, r.notional_qty, r.net, r.notional), (-1, 3, -100, 300));
    assert_eq!(r.stress_result, -65);
    assert_eq!((r.net_intrinsic, r.net_premium), (-50, -2500));
    assert_eq!(r.maturing_net_intrinsic, -100);
    assert_eq!((r.maturing_premium, r.maturing_liquidity), (-160, -5));
    assert_eq!(r.total_margin, -2725);
    assert_eq!(r.net_leverage, Some(36_697));
    assert_eq!(r.notional_leverage, Some(-110_091));
}

#[test]
fn margin_statistics_zero_margin_and_errors() {
    let r = _margin_function(vec![1], 10, &vec![YEAR], &vec![5], &vec![5], &vec![vec![0]]).unwrap();
    assert_eq!(r.total_margin, 0);
    assert_eq!(r.net_leverage, None);
    assert!(matches!(
        _margin_function(vec![1], 10, &vec![], &vec![5], &vec![5], &vec![vec![0]]),
        Err(ErrorCode::LengthMismatch)
    ));
    assert!(matches!(
        _margin_function(vec![i64::MAX, 1], 1, &vec![1, 1], &vec![0, 0], &vec![0, 0], &vec![vec![0], vec![0]]),
        Err(ErrorCode::Overflow)
    ));
}

struct Lcg(u64);

impl Lcg {
    fn next(&mut self) -> u64 {
        self.0 = self.0.wrapping_mul(6364136223846793005).wrapping_add(1442695040888963407);
        self.0 >> 33
    }

    fn signed(&mut self, bound: i64) -> i64 {
        (self.next() % (2 * bound as u64 + 1)) as i64 - bound
    }
}

#[test]
fn margin_never_positive_on_generated_inputs() {
    let mut rng = Lcg(42);
    for _ in 0..300 {
        let n = 1 + (rng.next() % 6) as usize;
        let cols = 1 + (rng.next() % 8) as usize;
        let user: Vec<i64> = (0..n).map(|_| rng.signed(50)).collect();
        let t: Vec<u64> = (0..n).map(|_| rng.next() % 4 * YEAR / 12).collect();
        let price: Vec<u64> = (0..n).map(|_| rng.next() % 5_000_000).collect();
        let intrinsic: Vec<u64> = (0..n).map(|_| rng.next() % 3_000_000).collect();
        let m: Vec<Vec<i64>> = (0..n).map(|_| (0..cols).map(|_| rng.signed(2_000_000)).collect()).collect();
        let r = margin_function(user, &t, &price, &intrinsic, &m).unwrap();
        assert!(r <= 0);
    }
}
