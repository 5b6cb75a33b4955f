use optifi::amm::{
    calculate_amm_quote_price, calculate_amm_size, calculate_amm_size_v2, clip_order_levels,
    total_amm_liquidity,
};
use optifi::orders::OrderSide;
use optifi::errors::ErrorCode;

#[test]
fn clip_asks_keeps_order() {
    let mut prices = vec![110, 105, 100];
    let mut sizes = vec![0, 3, 0];
    clip_order_levels(&mut sizes, &mut prices);
    assert_eq!(prices, vec![105]);
    assert_eq!(sizes, vec![3]);
}

#[test]
fn clip_bids_keeps_order() {
    let mut prices = vec![90, 95, 100, 101];
    let mut sizes = vec![1, 0, 2, 0];
    clip_order_levels(&mut sizes, &mut prices);
    assert_eq!(prices, vec![90, 100]);
    assert_eq!(sizes, vec![1, 2]);
}

#[test]
fn clip_all_zero_and_empty() {
    let mut prices = vec![3, 2, 1];
    let mut sizes = vec![0, 0, 0];
    clip_order_levels(&mut sizes, &mut prices);
    assert!(prices.is_empty() && sizes.is_empty());
    let mut p: Vec<u64> = vec![];
    let mut s: Vec<u64> = vec![];
    clip_order_levels(&mut s, &mut p);
    assert!(p.is_empty() && s.is_empty());
}

#[test]
fn amm_net_delta_and_capacity() {
    let r = total_amm_liquidity(&vec![500_000, -300_000], &vec![2, -1], -100_000, 1_000_000_000, 1_000_000);
    assert_eq!(r, Ok((1_200_000, 998_800_000)));
}

#[test]
fn amm_capacity_monotone() {
    let run = |usdc: u64, fut: i64| total_amm_liquidity(&vec![400_000], &vec![3], fut, usdc, 2_000_000).unwrap();
    let (nd_a, a) = run(1_000_000_000, 0);
    let (nd_b, b) = run(2_000_000_000, 0);
    assert_eq!(nd_a, nd_b);
    assert!(a < b);
    let (nd_c, c) = run(1_000_000_000, 5_000_000);
    assert!(nd_c.abs() > nd_a.abs());
    assert!(c < a);
    let (_, zero) = run(0, 100_000_000);
    assert_eq!(zero, 0);
}

#[test]
fn amm_option_inventory_does_not_add_capacity() {
    // one option of delta 0.05, no quote balance
    assert_eq!(total_amm_liquidity(&vec![50_000], &vec![0], 0, 0, 1_000_000), Ok((0, 0)));
    assert_eq!(total_amm_liquidity(&vec![50_000], &vec![1], 0, 0, 1_000_000), Ok((50_000, 0)));
    assert_eq!(total_amm_liquidity(&vec![50_000], &vec![0], 0, 1_000_000, 1_000_000), Ok((0, 1_000_000)));
    assert_eq!(total_amm_liquidity(&vec![50_000], &vec![1], 0, 1_000_000, 1_000_000), Ok((50_000, 950_000)));
}

#[test]
fn amm_errors() {
    assert_eq!(total_amm_liquidity(&vec![1], &vec![1, 2], 0, 0, 1), Err(ErrorCode::LengthMismatch));
    assert_eq!(total_amm_liquidity(&vec![i64::MAX], &vec![2], 0, 0, 1), Err(ErrorCode::Overflow));
}

#[test]
fn quote_ladder_worsening_side() {
    let (offsets, sizes) =
        calculate_amm_quote_price(100_000_000, OrderSide::Bid, 3_000_000, 10_000_000, 4_000_000);
    assert_eq!(offsets, vec![500_000, 1_000_000, 1_500_000, 2_000_000, 2_500_000]);
    assert_eq!(sizes, vec![4_000_000, 3_000_000, 0, 0, 0]);
}

#[test]
fn quote_ladder_reducing_side_offers_more() {
    let (_, sizes) = calculate_amm_quote_price(100_000_000, OrderSide::Ask, 3_000_000, 10_000_000, 4_000_000);
    assert_eq!(sizes, vec![4_000_000, 4_000_000, 2_000_000, 0, 0]);
    let (_, short_side) = calculate_amm_quote_price(100_000_000, OrderSide::Ask, -3_000_000, 10_000_000, 4_000_000);
    assert_eq!(short_side, vec![4_000_000, 3_000_000, 0, 0, 0]);
}

#[test]
fn quote_ladder_empties_without_capacity() {
    for side in [OrderSide::Bid, OrderSide::Ask] {
        let (mut offsets, mut sizes) = calculate_amm_quote_price(100_000_000, side, 1_000_000, 0, 4_000_000);
        assert_eq!(sizes, vec![0, 0, 0, 0, 0]);
        clip_order_levels(&mut sizes, &mut offsets);
        assert!(sizes.is_empty() && offsets.is_empty());
    }
}

#[test]
fn contract_sizes_per_level() {
    let ladder = vec![1_000_000, 500_000, 10_000];
    assert_eq!(calculate_amm_size_v2(&ladder, 250_000, 3_000_000), vec![4_000_000, 2_000_000, 40_000]);
    assert_eq!(calculate_amm_size_v2(&ladder, -250_000, 3_000_000), vec![4_000_000, 2_000_000, 40_000]);
    assert_eq!(calculate_amm_size_v2(&ladder, 0, 3_000_000), vec![20_000_000, 10_000_000, 200_000]);
    assert_eq!(
        calculate_amm_size(&ladder, &vec![250_000, -500_000], 3_000_000),
        vec![vec![4_000_000, 2_000_000, 40_000], vec![2_000_000, 1_000_000, 20_000]]
    );
}

#[test]
fn contract_sizes_share_one_budget() {
    let ladder = vec![1_000_000, 500_000, 10_000];
    assert_eq!(calculate_amm_size_v2(&ladder, 250_000, 1_200_000), vec![4_000_000, 800_000, 0]);
    // two levels of delta size 1 at delta 1.0 with a budget of 1
    let r = calculate_amm_size_v2(&vec![1_000_000, 1_000_000], 1_000_000, 1_000_000);
    assert_eq!(r, vec![1_000_000, 0]);
}
