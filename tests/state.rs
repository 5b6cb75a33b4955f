use optifi::asset::Asset;
use optifi::errors::ErrorCode;
use optifi::oracle::{verify_switchboard_account, verify_sync_oracles, OracleDataType};
use optifi::orderbook::{get_serum_spot_price, max_bid, min_ask};
use optifi::orders::{admit_order, OrderSide};
use optifi::pubkey::Pubkey;
use optifi::state::exchange::{
    Exchange, ExpiryType, InitializeExchangeData, InstrumentCommon, InstrumentUnique, OracleData,
};
use optifi::state::liquidation_state::{LiquidationState, LiquidationStatus};
use optifi::state::margin_stress::{times_to_maturity, MarginStressAccount, MarginStressState};
use optifi::state::user_account::{AccountState, TempPnL, UserAccount, UserPosition};

fn key(b: u8) -> Pubkey {
    Pubkey::new_from_array([b; 32])
}

fn exchange() -> Exchange {
    Exchange {
        uuid: String::from("x"),
        version: 1,
        exchange_authority: key(200),
        owner: key(201),
        usdc_mint: key(202),
        usdc_central_pool: key(203),
        oracle: vec![
            OracleData { asset: Asset::Bitcoin, spot_oracle: Some(key(50)), iv_oracle: Some(key(51)) },
            OracleData { asset: Asset::USDC, spot_oracle: Some(key(52)), iv_oracle: None },
        ],
        markets: vec![],
        instrument_common: vec![
            InstrumentCommon { asset: Asset::Bitcoin, expiry_date: 1_000, expiry_type: ExpiryType::Standard },
            InstrumentCommon { asset: Asset::Ethereum, expiry_date: 2_000, expiry_type: ExpiryType::Standard },
            InstrumentCommon { asset: Asset::Bitcoin, expiry_date: 3_000, expiry_type: ExpiryType::Standard },
        ],
        instrument_unique: vec![
            vec![
                InstrumentUnique { strike: 40_000, instrument_pubkeys: [key(1), key(2)] },
                InstrumentUnique { strike: 50_000, instrument_pubkeys: [key(3), key(4)] },
            ],
            vec![InstrumentUnique { strike: 3_000, instrument_pubkeys: [key(5), key(6)] }],
            vec![InstrumentUnique { strike: 45_000, instrument_pubkeys: [key(7), key(8)] }],
        ],
    }
}

fn user(positions: Vec<UserPosition>) -> UserAccount {
    UserAccount {
        optifi_exchange: key(200),
        owner: key(9),
        user_margin_account_usdc: key(10),
        temp_pnl: TempPnL { amount: 0, epoch: 0 },
        state: AccountState::Initialized,
        positions,
        is_in_liquidation: false,
        bump: 0,
        amount_to_reserve: [0; 10],
    }
}

#[test]
fn pubkey_equality() {
    assert!(key(1) == key(1));
    assert!(key(1) != key(2));
    let mut b = [7u8; 32];
    b[31] = 8;
    assert!(Pubkey::new_from_array(b) != key(7));
    assert_eq!(Pubkey::new_from_array(b).to_bytes(), b);
}

#[test]
fn instrument_lookup() {
    let ex = exchange();
    let (ic, strike, is_call) = ex.get_instrument_data(&key(4)).unwrap();
    assert_eq!(ic.expiry_date, 1_000);
    assert_eq!(strike, 50_000);
    assert!(is_call);
    let (ic, strike, is_call) = ex.get_instrument_data(&key(5)).unwrap();
    assert_eq!(ic.asset, Asset::Ethereum);
    assert_eq!(strike, 3_000);
    assert!(!is_call);
    assert!(ex.get_instrument_data(&key(99)).is_none());
}

#[test]
fn instruments_of_an_asset() {
    let ex = exchange();
    let (keys, strikes, is_call, expiry) = ex.get_instrument_data_with_asset(Asset::Bitcoin);
    assert_eq!(keys, vec![key(1), key(2), key(3), key(4), key(7), key(8)]);
    assert_eq!(strikes, vec![40_000, 40_000, 50_000, 50_000, 45_000, 45_000]);
    assert_eq!(is_call, vec![0, 1, 0, 1, 0, 1]);
    assert_eq!(expiry, vec![1_000, 1_000, 1_000, 1_000, 3_000, 3_000]);
    assert_eq!(ex.get_expiry_date_with_asset(Asset::Ethereum), vec![2_000, 2_000]);
    assert_eq!(ex.get_instrument_pubkey(None).len(), 8);
    assert_eq!(ex.get_instrument_pubkey(Some(Asset::Ethereum)), vec![key(5), key(6)]);
}

#[test]
fn clean_drops_expired_groups() {
    let mut ex = exchange();
    ex.clean_expired_instruments(2_000);
    assert_eq!(ex.instrument_common.len(), 1);
    assert_eq!(ex.instrument_common[0].expiry_date, 3_000);
    assert_eq!(ex.instrument_unique.len(), 1);
    assert_eq!(ex.instrument_unique[0][0].strike, 45_000);
}

#[test]
fn oracle_accounts_checked() {
    let ex = exchange();
    assert!(verify_switchboard_account(Asset::Bitcoin, OracleDataType::Spot, &key(50), &ex));
    assert!(!verify_switchboard_account(Asset::Bitcoin, OracleDataType::Spot, &key(51), &ex));
    assert!(verify_switchboard_account(Asset::Bitcoin, OracleDataType::IV, &key(51), &ex));
    assert!(verify_switchboard_account(Asset::USDC, OracleDataType::Spot, &key(52), &ex));
    assert!(!verify_switchboard_account(Asset::USDC, OracleDataType::IV, &key(52), &ex));
}

#[test]
fn liquidation_pops_most_negative_first() {
    let mut st = LiquidationState {
        user_account: key(9),
        status: LiquidationStatus::ClosePositions,
        instruments: vec![key(1), key(2), key(3), key(4)],
        values: vec![-5, -20, 3, -20],
    };
    assert!(st.pop_largest() == key(2));
    assert_eq!(st.values, vec![-5, 3, -20]);
    assert!(st.pop_largest() == key(4));
    assert!(st.pop_largest() == key(1));
    assert_eq!(st.values, vec![3]);
    assert!(st.pop_largest() == key(3));
    assert!(st.instruments.is_empty());
}

#[test]
fn liquidation_add_and_complete() {
    let mut st = LiquidationState {
        user_account: key(9),
        status: LiquidationStatus::CancelOrder,
        instruments: vec![],
        values: vec![],
    };
    st.add_position(7, key(1));
    st.add_position(9, key(2));
    assert!(st.pop_largest() == key(1));
    st.liquidation_complete();
    assert_eq!(st.status, LiquidationStatus::Healthy);
    assert!(st.instruments.is_empty() && st.values.is_empty());
}

#[test]
fn user_positions_update() {
    let mut u = user(vec![]);
    u.add_short_position(key(1), 5);
    u.add_long_position(key(1), 2);
    u.add_long_position(key(2), 4);
    assert_eq!(u.positions.len(), 2);
    assert_eq!(u.get_quantity(key(1)), -3);
    assert_eq!(u.get_quantity(key(2)), 4);
    assert_eq!(u.get_quantity(key(3)), 0);
    u.update_long_position(key(1), 10);
    u.update_short_position(key(3), 1);
    assert_eq!(u.get_quantity(key(1)), 5);
    assert_eq!(u.get_quantity(key(3)), -1);
    assert_eq!(u.position_vector(&vec![key(3), key(9), key(1)]), vec![-1, 0, 5]);
    assert!(u.positions[0].is_valid(&vec![key(7), key(1)]));
    assert!(!u.positions[0].is_valid(&vec![key(7)]));
    assert_eq!(*u.positions[1].get_instrument(), key(2));
}

#[test]
fn user_account_margin_figures() {
    let mut u = user(vec![]);
    u.amount_to_reserve[0] = 100;
    u.amount_to_reserve[2] = 50;
    assert_eq!(u.get_maintanance_margin(), 150);
    u.temp_pnl.amount = -30;
    assert_eq!(u.get_available_margin(100), 70);
    u.temp_pnl.amount = 30;
    assert_eq!(u.get_available_margin(100), 100);
    assert!(!u.is_frozen());
    assert!(u.is_initialized());
    u.state = AccountState::Frozen;
    assert!(u.is_frozen());
}

#[test]
fn expiry_in_seconds() {
    assert_eq!(times_to_maturity(&vec![100, 250], 100), Ok(vec![0, 150]));
    assert_eq!(times_to_maturity(&vec![100, 50], 60), Err(ErrorCode::InstrumentExpired));
}

#[test]
fn margin_stress_cycle() {
    let ex = exchange();
    let mut acct = MarginStressAccount::new(key(200), 1, Asset::Ethereum, &ex);
    assert_eq!(acct.state, MarginStressState::Sync);
    assert_eq!(acct.instruments, vec![key(5), key(6)]);
    assert_eq!(acct.flags, vec![false, false]);
    assert_eq!(acct.record_stress_result(0, 1, 1, vec![0, 0]), Err(ErrorCode::WrongState));
    assert_eq!(acct.sync(3_000_000_000, 800_000, 1_000), Ok(()));
    assert_eq!(acct.state, MarginStressState::Calculate);
    assert_eq!(acct.sync(3_000_000_000, 800_000, 1_000), Err(ErrorCode::WrongState));
    assert_eq!(acct.next_uncomputed(), Some(0));
    assert_eq!(acct.record_stress_result(0, 100, 0, vec![-10, 20]), Ok(()));
    assert!(!acct.finish_if_complete());
    assert_eq!(acct.next_uncomputed(), Some(1));
    assert_eq!(acct.record_stress_result(1, 200, 50, vec![-30, 40]), Ok(()));
    assert_eq!(acct.next_uncomputed(), None);
    assert!(acct.finish_if_complete());
    assert_eq!(acct.state, MarginStressState::Available);
    assert_eq!(acct.flags, vec![false, false]);
    assert_eq!(acct.get_option_price(key(6)), 200);

    let mut u = user(vec![UserPosition { instrument: key(6), long_qty: 0, short_qty: 1 }]);
    let amount = acct.user_margin(&ex, &mut u).unwrap();
    assert_eq!(amount, 683);
    assert_eq!(u.amount_to_reserve[1], 683);
    acct.move_to_next_state();
    assert_eq!(acct.state, MarginStressState::Sync);
    assert_eq!(acct.user_margin(&ex, &mut u), Err(ErrorCode::WrongState));
}

#[test]
fn book_mid_price() {
    assert_eq!(max_bid(&vec![90, 100, 95]), 100);
    assert_eq!(min_ask(&vec![110, 105]), 105);
    assert_eq!(get_serum_spot_price(&vec![90, 100, 95], &vec![110, 105]), 102);
    assert_eq!(get_serum_spot_price(&vec![110], &vec![100]), 110);
}

fn available_account(ex: &Exchange) -> MarginStressAccount {
    let mut acct = MarginStressAccount::new(key(200), 1, Asset::Ethereum, ex);
    acct.sync(3_000_000_000, 800_000, 1_000).unwrap();
    acct.record_stress_result(0, 100, 0, vec![-10, 20]).unwrap();
    acct.record_stress_result(1, 200, 50, vec![-30, 40]).unwrap();
    assert!(acct.finish_if_complete());
    acct
}

#[test]
fn order_admission_checks_margin() {
    let ex = exchange();
    let acct = available_account(&ex);
    let mut u = user(vec![]);
    assert_eq!(admit_order(&mut u, &acct, &ex, OrderSide::Ask, key(6), 1, 1_000), Ok(683));
    assert_eq!(u.get_quantity(key(6)), -1);
    let mut poor = user(vec![]);
    assert_eq!(
        admit_order(&mut poor, &acct, &ex, OrderSide::Ask, key(6), 1, 500),
        Err(ErrorCode::InsufficientMargin)
    );
    assert_eq!(poor.amount_to_reserve[1], 683);
    let mut buyer = user(vec![]);
    assert_eq!(admit_order(&mut buyer, &acct, &ex, OrderSide::Bid, key(6), 1, 0), Ok(0));
}

#[test]
fn order_admission_rejections() {
    let ex = exchange();
    let acct = available_account(&ex);
    let mut u = user(vec![]);
    u.is_in_liquidation = true;
    assert_eq!(
        admit_order(&mut u, &acct, &ex, OrderSide::Bid, key(6), 1, 1_000),
        Err(ErrorCode::CannotPlaceOrdersInLiquidation)
    );
    let fresh = MarginStressAccount::new(key(200), 1, Asset::Ethereum, &ex);
    let mut v = user(vec![]);
    assert_eq!(
        admit_order(&mut v, &fresh, &ex, OrderSide::Bid, key(6), 1, 1_000),
        Err(ErrorCode::WrongState)
    );
}

#[test]
fn expired_positions_removed() {
    let mut u = user(vec![
        UserPosition { instrument: key(1), long_qty: 1, short_qty: 0 },
        UserPosition { instrument: key(2), long_qty: 0, short_qty: 2 },
        UserPosition { instrument: key(3), long_qty: 3, short_qty: 0 },
    ]);
    u.clean_expired_positions(&vec![key(3), key(1)]);
    assert_eq!(u.positions.len(), 2);
    assert_eq!(*u.positions[0].get_instrument(), key(1));
    assert_eq!(*u.positions[1].get_instrument(), key(3));
}

#[test]
fn withdrawal_checks() {
    let mut u = user(vec![]);
    u.amount_to_reserve[0] = 300;
    assert_eq!(u.check_withdrawal(key(9), key(10), 1_000, 700), Ok(()));
    assert_eq!(u.check_withdrawal(key(9), key(10), 1_000, 701), Err(ErrorCode::InsufficientFund));
    assert_eq!(u.check_withdrawal(key(8), key(10), 1_000, 1), Err(ErrorCode::UnauthorizedAccount));
    assert_eq!(u.check_withdrawal(key(9), key(11), 1_000, 1), Err(ErrorCode::UnauthorizedTokenVault));
}

fn init_data(uuid: &str) -> InitializeExchangeData {
    InitializeExchangeData {
        uuid: String::from(uuid),
        version: 2,
        exchange_authority: key(200),
        owner: key(201),
        usdc_mint: key(202),
        btc_spot_oracle: key(50),
        eth_spot_oracle: key(53),
        usdc_spot_oracle: key(52),
        btc_iv_oracle: key(51),
        eth_iv_oracle: key(54),
    }
}

#[test]
fn exchange_initialization() {
    let ex = Exchange::initialize(init_data("abc123"), key(203)).ok().unwrap();
    assert_eq!(ex.version, 2);
    assert_eq!(ex.oracle.len(), 3);
    assert!(verify_switchboard_account(Asset::Ethereum, OracleDataType::IV, &key(54), &ex));
    assert!(verify_switchboard_account(Asset::USDC, OracleDataType::Spot, &key(52), &ex));
    assert!(ex.instrument_common.is_empty());
    assert!(matches!(
        Exchange::initialize(init_data("abc"), key(203)),
        Err(ErrorCode::UuidMustBeExactly6Length)
    ));
    // the length counts bytes: the euro sign takes three
    assert!(Exchange::initialize(init_data("ab\u{20ac}1"), key(203)).is_ok());
}

#[test]
fn sync_feeds_checked() {
    let ex = exchange();
    assert_eq!(verify_sync_oracles(Asset::Bitcoin, &key(50), &key(52), &key(51), &ex), Ok(()));
    assert_eq!(
        verify_sync_oracles(Asset::Bitcoin, &key(50), &key(52), &key(50), &ex),
        Err(ErrorCode::IncorrectOracleAccount)
    );
    assert_eq!(
        verify_sync_oracles(Asset::Bitcoin, &key(52), &key(52), &key(51), &ex),
        Err(ErrorCode::IncorrectOracleAccount)
    );
}

#[test]
fn pricing_inputs_of_an_instrument() {
    let ex = exchange();
    let mut acct = MarginStressAccount::new(key(200), 1, Asset::Bitcoin, &ex);
    acct.sync(48_400_000_000, 1_000_000, 900).unwrap();
    assert_eq!(acct.instrument_inputs(3, &ex), Ok((50_000, true, 100)));
    assert_eq!(acct.instrument_inputs(4, &ex), Ok((45_000, false, 2_100)));
    let mut later = MarginStressAccount::new(key(200), 1, Asset::Bitcoin, &ex);
    later.sync(48_400_000_000, 1_000_000, 1_500).unwrap();
    assert_eq!(later.instrument_inputs(0, &ex), Err(ErrorCode::InstrumentExpired));
    let mut other = exchange();
    other.instrument_unique[0][0].instrument_pubkeys = [key(90), key(91)];
    assert_eq!(later.instrument_inputs(0, &other), Err(ErrorCode::InstrumentNotFound));
}

#[test]
fn calculate_step_picks_first_uncomputed() {
    let ex = exchange();
    let mut acct = MarginStressAccount::new(key(200), 1, Asset::Bitcoin, &ex);
    assert_eq!(acct.calculate_step_indices(), Err(ErrorCode::WrongState));
    acct.sync(48_400_000_000, 1_000_000, 900).unwrap();
    assert_eq!(acct.calculate_step_indices(), Ok(vec![0, 1]));
    acct.record_stress_result(0, 1, 0, vec![0, 0]).unwrap();
    acct.record_stress_result(2, 1, 0, vec![0, 0]).unwrap();
    assert_eq!(acct.calculate_step_indices(), Ok(vec![1, 3]));
}

#[test]
fn user_margin_rejects_expired_listing() {
    let ex = exchange();
    let mut acct = MarginStressAccount::new(key(200), 1, Asset::Ethereum, &ex);
    acct.sync(3_000_000_000, 800_000, 2_500).unwrap();
    acct.record_stress_result(0, 100, 0, vec![-10, 20]).unwrap();
    acct.record_stress_result(1, 200, 50, vec![-30, 40]).unwrap();
    assert!(acct.finish_if_complete());
    let mut u = user(vec![]);
    assert_eq!(acct.user_margin(&ex, &mut u), Err(ErrorCode::InstrumentExpired));
    assert_eq!(u.amount_to_reserve, [0; 10]);
}

#[test]
fn underfunded_bid_is_rejected() {
    let ex = exchange();
    let acct = available_account(&ex);
    let mut u = user(vec![UserPosition { instrument: key(6), long_qty: 0, short_qty: 1 }]);
    assert_eq!(
        admit_order(&mut u, &acct, &ex, OrderSide::Bid, key(6), 0, 682),
        Err(ErrorCode::InsufficientMargin)
    );
    assert_eq!(admit_order(&mut u, &acct, &ex, OrderSide::Bid, key(6), 0, 683), Ok(683));
}
