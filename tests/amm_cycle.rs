use optifi::errors::ErrorCode;
use optifi::state::amm_state::{AmmAccount, AmmState};

fn amm() -> AmmAccount {
    AmmAccount {
        state: AmmState::CalculateDelta,
        positions: vec![2, -1],
        futures_position: 0,
        usdc_balance: 1_000_000_000,
        net_delta: 0,
        liquidity: 0,
        flags: vec![false, false],
        ladder_offsets: vec![],
        bid_sizes: vec![vec![], vec![]],
        ask_sizes: vec![vec![], vec![]],
    }
}

#[test]
fn amm_cycle_runs_through_its_phases() {
    let mut a = amm();
    assert_eq!(a.calculate_proposal(0, 1_000_000, 500_000, 1_000_000), Err(ErrorCode::WrongState));
    assert_eq!(a.calculate_delta(&vec![500_000, -300_000], 1_000_000), Ok(()));
    assert_eq!(a.state, AmmState::CalculateProposal);
    assert_eq!(a.net_delta, 1_300_000);
    assert_eq!(a.liquidity, 998_700_000);
    assert_eq!(a.calculate_delta(&vec![500_000, -300_000], 1_000_000), Err(ErrorCode::WrongState));
    assert_eq!(a.calculate_proposal(0, 1_000_000, 500_000, 1_000_000), Ok(()));
    assert_eq!(a.state, AmmState::CalculateProposal);
    assert_eq!(a.ladder_offsets, vec![5_000, 10_000, 15_000, 20_000, 25_000]);
    // the budget of one million delta fills the first level: two million contracts
    assert_eq!(a.bid_sizes[0], vec![2_000_000, 0, 0, 0, 0]);
    assert_eq!(a.calculate_proposal(1, 1_000_000, -300_000, 1_000_000), Ok(()));
    assert_eq!(a.state, AmmState::UpdateOrders);
    assert_eq!(a.flags, vec![false, false]);
    assert_eq!(a.orders_updated(1), Ok(()));
    assert_eq!(a.state, AmmState::UpdateOrders);
    assert_eq!(a.orders_updated(0), Ok(()));
    assert_eq!(a.state, AmmState::CalculateDelta);
    assert_eq!(a.liquidity, 998_700_000);
}

#[test]
fn amm_failed_measurement_changes_nothing() {
    let mut a = amm();
    assert_eq!(a.calculate_delta(&vec![1], 1_000_000), Err(ErrorCode::LengthMismatch));
    assert_eq!(a.state, AmmState::CalculateDelta);
    assert_eq!(a.liquidity, 0);
    assert_eq!(a.orders_updated(0), Err(ErrorCode::WrongState));
}

#[test]
fn amm_worsening_side_gets_less() {
    let mut a = amm();
    a.usdc_balance = 3_000_000;
    a.calculate_delta(&vec![500_000, -300_000], 1_000_000).unwrap();
    // long 1.3 in delta: capacity 1.7; buying more gets 1.7 - 1.3 of it
    assert_eq!(a.liquidity, 1_700_000);
    a.calculate_proposal(0, 1_000_000, 1_000_000, 1_000_000).unwrap();
    assert_eq!(a.bid_sizes[0], vec![400_000, 0, 0, 0, 0]);
    assert_eq!(a.ask_sizes[0], vec![1_000_000, 0, 0, 0, 0]);
}
