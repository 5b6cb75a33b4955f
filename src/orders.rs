//! Order admission: the margin check a new order must pass.
use vstd::prelude::*;

use crate::errors::ErrorCode;
use crate::margin::{is_margin_sufficient, sum_u64};
use crate::pubkey::Pubkey;
use crate::state::exchange::Exchange;
use crate::state::margin_stress::{user_positions, MarginStressAccount, MarginStressState};
use crate::state::user_account::{lemma_find_position, position_index, with_short_added, UserAccount};

verus! {

/// The side of an order.
#[derive(Clone, Copy, Debug, PartialEq, Eq, Structural)]
pub enum OrderSide {
    Bid,
    Ask,
}

/// Admits or rejects a new order of `max_coin_qty` on `instrument`. An ask
/// first books the short quantity on the user's account; then the user's
/// margin on the asset is recomputed and recorded, and the order passes only
/// when `margin_balance` covers the reserves of every asset.
pub fn admit_order(
    user: &mut UserAccount,
    stress: &MarginStressAccount,
    exchange: &Exchange,
    side: OrderSide,
    instrument: Pubkey,
    max_coin_qty: u64,
    margin_balance: u64,
) -> (r: Result<u64, ErrorCode>)
    requires
        exchange.wf(),
        old(user).quantities_fit(),
        side == OrderSide::Ask ==> ({
            let k = position_index(old(user).positions@, instrument);
            k >= 0 ==> {
                &&& old(user).positions@[k].short_qty + max_coin_qty <= u64::MAX
                &&& i64::MIN <= old(user).positions@[k].long_qty - (old(user).positions@[k].short_qty
                    + max_coin_qty)
            }
        }),
        side == OrderSide::Ask && position_index(old(user).positions@, instrument) < 0 ==> max_coin_qty
            <= i64::MAX,
    ensures
        stress.state != MarginStressState::Available ==> r == Err::<u64, ErrorCode>(ErrorCode::WrongState),
        stress.state == MarginStressState::Available && old(user).is_in_liquidation ==> r == Err::<
            u64,
            ErrorCode,
        >(ErrorCode::CannotPlaceOrdersInLiquidation),
        stress.state == MarginStressState::Available && !old(user).is_in_liquidation ==> {
            let booked = if side == OrderSide::Ask {
                with_short_added(old(user).positions@, instrument, max_coin_qty)
            } else {
                old(user).positions@
            };
            let reserves = final(user).amount_to_reserve@;
            &&& final(user).positions@ == booked
            &&& match stress.margin_outcome_for(exchange, final(user)) {
                Err(e) => r == Err::<u64, ErrorCode>(e) && final(user).amount_to_reserve
                    == old(user).amount_to_reserve,
                Ok(a) => {
                    &&& reserves == old(user).amount_to_reserve@.update(stress.asset.index_spec(), a)
                    &&& margin_balance >= sum_u64(reserves, 10) ==> r == Ok::<u64, ErrorCode>(a)
                    &&& margin_balance < sum_u64(reserves, 10) ==> r == Err::<u64, ErrorCode>(
                        ErrorCode::InsufficientMargin,
                    )
                },
            }
        },
{
    match stress.state {
        MarginStressState::Available => {},
        _ => {
            return Err(ErrorCode::WrongState);
        },
    }
    if user.is_in_liquidation {
        return Err(ErrorCode::CannotPlaceOrdersInLiquidation);
    }
    match side {
        OrderSide::Ask => {
            user.add_short_position(instrument, max_coin_qty);
            proof {
                lemma_short_keeps_fit(old(user), user, instrument, max_coin_qty);
            }
        },
        OrderSide::Bid => {},
    }
    let ghost mid = *user;
    let outcome = stress.user_margin(exchange, user);
    proof {
        assert(user.positions@ == mid.positions@);
        assert(user_positions(user, stress.instruments@) =~= user_positions(&mid, stress.instruments@));
        assert(stress.margin_outcome_for(exchange, user) == stress.margin_outcome_for(exchange, &mid));
    }
    let amount = match outcome {
        Ok(a) => a,
        Err(e) => {
            return Err(e);
        },
    };
    if !is_margin_sufficient(margin_balance, user.amount_to_reserve.as_slice()) {
        return Err(ErrorCode::InsufficientMargin);
    }
    Ok(amount)
}

proof fn lemma_short_keeps_fit(before: &UserAccount, after: &UserAccount, instrument: Pubkey, qty: u64)
    requires
        before.quantities_fit(),
        ({
            let k = position_index(before.positions@, instrument);
            &&& k >= 0 ==> {
                &&& before.positions@[k].short_qty + qty <= u64::MAX
                &&& i64::MIN <= before.positions@[k].long_qty - (before.positions@[k].short_qty + qty)
            }
            &&& k < 0 ==> qty <= i64::MAX
        }),
        ({
            let ps = before.positions@;
            let k = position_index(ps, instrument);
            &&& k >= 0 ==> after.positions@ == ps.update(
                k,
                crate::state::user_account::UserPosition { short_qty: (ps[k].short_qty + qty) as u64, ..ps[k] },
            )
            &&& k < 0 ==> after.positions@ == ps.push(
                crate::state::user_account::UserPosition { instrument, long_qty: 0, short_qty: qty },
            )
        }),
    ensures
        after.quantities_fit(),
{
    let ps = before.positions@;
    let k = position_index(ps, instrument);
    lemma_find_position(ps, instrument, ps.len() as int);
    assert forall|i: int| 0 <= i < after.positions@.len() implies i64::MIN <= (
    #[trigger] after.positions@[i]).quantity_spec() <= i64::MAX by {
        if i < ps.len() && i != k {
            assert(after.positions@[i] == ps[i]);
            assert(i64::MIN <= ps[i].quantity_spec() <= i64::MAX);
        } else if i < ps.len() {
            assert(i64::MIN <= ps[i].quantity_spec() <= i64::MAX);
        }
    }
}

} // verus!
