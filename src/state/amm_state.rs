//! The AMM's quoting cycle: CalculateDelta measures the inventory,
//! CalculateProposal builds each instrument's ladders, UpdateOrders has them
//! placed, and the cycle starts again.
use vstd::prelude::*;

use crate::amm::{
    amm_in_range, amm_liquidity_spec, calculate_amm_quote_price, calculate_amm_size_v2,
    ladder_offset, ladder_size, level_contracts, side_capacity, total_amm_liquidity,
};
use crate::constants::QUOTE_LEVELS;
use crate::errors::ErrorCode;
use crate::orders::OrderSide;
use crate::state::margin_stress::{all_clear, all_set};

verus! {

/// The phase of the AMM's quoting cycle.
#[derive(Clone, Copy, Debug, PartialEq, Eq, Structural)]
pub enum AmmState {
    CalculateDelta,
    CalculateProposal,
    UpdateOrders,
}

/// The AMM's inventory, its last measured exposure, and its quote proposals.
pub struct AmmAccount {
    pub state: AmmState,
    /// The AMM's position in each instrument it trades.
    pub positions: Vec<i64>,
    /// Hedge position in underlying units at fixed-point scale.
    pub futures_position: i64,
    /// Quote-currency balance at fixed-point scale.
    pub usdc_balance: u64,
    /// Net delta as of the last CalculateDelta phase.
    pub net_delta: i64,
    /// Remaining capacity as of the last CalculateDelta phase.
    pub liquidity: u64,
    /// Per instrument: whether the current phase is done for it.
    pub flags: Vec<bool>,
    /// Price distance of each ladder level from the spot, as last proposed.
    pub ladder_offsets: Vec<u64>,
    /// Per instrument: contract sizes of the bid ladder.
    pub bid_sizes: Vec<Vec<u64>>,
    /// Per instrument: contract sizes of the ask ladder.
    pub ask_sizes: Vec<Vec<u64>>,
}

/// Contract sizes of the ladder on one side for an option of delta `delta`.
pub open spec fn proposal_sizes(side: OrderSide, net_delta: int, liquidity: int, delta: int, quote_size: int) -> Seq<
    u64,
> {
    let ladder = Seq::new(
        QUOTE_LEVELS as nat,
        |k: int| ladder_size(side_capacity(side, net_delta, liquidity), quote_size, k) as u64,
    );
    Seq::new(QUOTE_LEVELS as nat, |k: int| level_contracts(ladder, delta, quote_size, k) as u64)
}

impl AmmAccount {
    /// One flag and one proposal per instrument.
    pub open spec fn wf(&self) -> bool {
        let n = self.positions@.len();
        &&& self.flags@.len() == n
        &&& self.bid_sizes@.len() == n
        &&& self.ask_sizes@.len() == n
    }

    fn clear_flags(&mut self)
        requires
            old(self).wf(),
        ensures
            final(self).wf(),
            all_clear(final(self).flags@),
            final(self).flags@.len() == old(self).flags@.len(),
            final(self).state == old(self).state,
            final(self).positions == old(self).positions,
            final(self).net_delta == old(self).net_delta,
            final(self).liquidity == old(self).liquidity,
            final(self).bid_sizes == old(self).bid_sizes,
            final(self).ask_sizes == old(self).ask_sizes,
            final(self).futures_position == old(self).futures_position,
            final(self).usdc_balance == old(self).usdc_balance,
            final(self).ladder_offsets == old(self).ladder_offsets,
    {
        let n = self.flags.len();
        let mut i: usize = 0;
        while i < n
            invariant
                n == self.flags@.len(),
                n == old(self).flags@.len(),
                i <= n,
                forall|k: int| 0 <= k < i ==> !#[trigger] self.flags@[k],
                self.state == old(self).state,
                self.positions == old(self).positions,
                self.net_delta == old(self).net_delta,
                self.liquidity == old(self).liquidity,
                self.bid_sizes == old(self).bid_sizes,
                self.ask_sizes == old(self).ask_sizes,
                self.futures_position == old(self).futures_position,
                self.usdc_balance == old(self).usdc_balance,
                self.ladder_offsets == old(self).ladder_offsets,
            decreases n - i,
        {
            self.flags.set(i, false);
            i += 1;
        }
    }

    fn all_flags_set(&self) -> (r: bool)
        ensures
            r <==> all_set(self.flags@),
    {
        let mut i: usize = 0;
        while i < self.flags.len()
            invariant
                i <= self.flags@.len(),
                forall|k: int| 0 <= k < i ==> #[trigger] self.flags@[k],
            decreases self.flags@.len() - i,
        {
            if !self.flags[i] {
                return false;
            }
            i += 1;
        }
        true
    }

    /// Measures the AMM's net delta and capacity from each instrument's delta,
    /// then moves to CalculateProposal with nothing proposed yet.
    /// Only allowed in CalculateDelta; on any error nothing changes.
    pub fn calculate_delta(&mut self, delta: &Vec<i64>, spot_price: u64) -> (r: Result<(), ErrorCode>)
        requires
            old(self).wf(),
            spot_price > 0,
        ensures
            final(self).wf(),
            r is Err ==> *final(self) == *old(self),
            old(self).state != AmmState::CalculateDelta ==> r == Err::<(), ErrorCode>(ErrorCode::WrongState),
            (old(self).state == AmmState::CalculateDelta && delta.len() == old(self).positions.len()
                && amm_in_range(
                delta@,
                old(self).positions@,
                old(self).futures_position as int,
                old(self).usdc_balance as int,
                spot_price as int,
            )) <==> r is Ok,
            r is Ok ==> {
                let (nd, liq) = amm_liquidity_spec(
                    delta@,
                    old(self).positions@,
                    old(self).futures_position as int,
                    old(self).usdc_balance as int,
                    spot_price as int,
                );
                &&& final(self).net_delta == nd
                &&& final(self).liquidity == liq
                &&& final(self).state == AmmState::CalculateProposal
                &&& all_clear(final(self).flags@)
                &&& final(self).positions == old(self).positions
            },
    {
        match self.state {
            AmmState::CalculateDelta => {},
            _ => {
                return Err(ErrorCode::WrongState);
            },
        }
        let (nd, liq) = match total_amm_liquidity(
            delta,
            &self.positions,
            self.futures_position,
            self.usdc_balance,
            spot_price,
        ) {
            Ok(v) => v,
            Err(e) => {
                return Err(e);
            },
        };
        self.net_delta = nd;
        self.liquidity = liq;
        self.clear_flags();
        self.state = AmmState::CalculateProposal;
        Ok(())
    }

    /// Builds both ladders of instrument `index`, an option of delta `delta`,
    /// from the measured net delta and capacity; once every instrument has
    /// its proposal, moves to UpdateOrders. Only allowed in
    /// CalculateProposal; on an error nothing changes.
    pub fn calculate_proposal(&mut self, index: usize, spot_price: u64, delta: i64, quote_size: u64) -> (r: Result<
        (),
        ErrorCode,
    >)
        requires
            old(self).wf(),
            index < old(self).positions@.len(),
            crate::amm::budget_fits(quote_size as int),
        ensures
            final(self).wf(),
            r is Err ==> *final(self) == *old(self),
            old(self).state != AmmState::CalculateProposal <==> r == Err::<(), ErrorCode>(
                ErrorCode::WrongState,
            ),
            old(self).state == AmmState::CalculateProposal <==> r is Ok,
            r is Ok ==> {
                &&& final(self).ladder_offsets@ == Seq::new(
                    QUOTE_LEVELS as nat,
                    |k: int| ladder_offset(spot_price as int, k) as u64,
                )
                &&& final(self).bid_sizes@[index as int]@ == proposal_sizes(
                    OrderSide::Bid,
                    old(self).net_delta as int,
                    old(self).liquidity as int,
                    delta as int,
                    quote_size as int,
                )
                &&& final(self).ask_sizes@[index as int]@ == proposal_sizes(
                    OrderSide::Ask,
                    old(self).net_delta as int,
                    old(self).liquidity as int,
                    delta as int,
                    quote_size as int,
                )
                &&& final(self).net_delta == old(self).net_delta
                &&& final(self).liquidity == old(self).liquidity
                &&& final(self).positions == old(self).positions
                &&& all_set(old(self).flags@.update(index as int, true)) ==> final(self).state
                    == AmmState::UpdateOrders && all_clear(final(self).flags@)
                &&& !all_set(old(self).flags@.update(index as int, true)) ==> final(self).state
                    == AmmState::CalculateProposal && final(self).flags@ == old(self).flags@.update(
                    index as int,
                    true,
                )
            },
    {
        match self.state {
            AmmState::CalculateProposal => {},
            _ => {
                return Err(ErrorCode::WrongState);
            },
        }
        let (offsets, bid_ladder) = calculate_amm_quote_price(
            spot_price,
            OrderSide::Bid,
            self.net_delta,
            self.liquidity,
            quote_size,
        );
        let (_, ask_ladder) = calculate_amm_quote_price(
            spot_price,
            OrderSide::Ask,
            self.net_delta,
            self.liquidity,
            quote_size,
        );
        let bid = calculate_amm_size_v2(&bid_ladder, delta, quote_size);
        let ask = calculate_amm_size_v2(&ask_ladder, delta, quote_size);
        proof {
            let cb = side_capacity(OrderSide::Bid, self.net_delta as int, self.liquidity as int);
            let ca = side_capacity(OrderSide::Ask, self.net_delta as int, self.liquidity as int);
            assert(bid_ladder@ =~= Seq::new(
                QUOTE_LEVELS as nat,
                |k: int| ladder_size(cb, quote_size as int, k) as u64,
            ));
            assert(ask_ladder@ =~= Seq::new(
                QUOTE_LEVELS as nat,
                |k: int| ladder_size(ca, quote_size as int, k) as u64,
            ));
            assert(bid@ =~= proposal_sizes(
                OrderSide::Bid,
                self.net_delta as int,
                self.liquidity as int,
                delta as int,
                quote_size as int,
            ));
            assert(ask@ =~= proposal_sizes(
                OrderSide::Ask,
                self.net_delta as int,
                self.liquidity as int,
                delta as int,
                quote_size as int,
            ));
        }
        proof {
            assert(offsets@ =~= Seq::new(
                QUOTE_LEVELS as nat,
                |k: int| ladder_offset(spot_price as int, k) as u64,
            ));
        }
        self.ladder_offsets = offsets;
        self.bid_sizes.set(index, bid);
        self.ask_sizes.set(index, ask);
        self.flags.set(index, true);
        if self.all_flags_set() {
            self.clear_flags();
            self.state = AmmState::UpdateOrders;
        }
        Ok(())
    }

    /// Records that instrument `index`'s orders were replaced with its
    /// proposal; once every instrument is done, the cycle returns to
    /// CalculateDelta. Only allowed in UpdateOrders; on an error nothing
    /// changes.
    pub fn orders_updated(&mut self, index: usize) -> (r: Result<(), ErrorCode>)
        requires
            old(self).wf(),
            index < old(self).positions@.len(),
        ensures
            final(self).wf(),
            r is Err ==> *final(self) == *old(self),
            old(self).state != AmmState::UpdateOrders <==> r == Err::<(), ErrorCode>(
                ErrorCode::WrongState,
            ),
            old(self).state == AmmState::UpdateOrders <==> r is Ok,
            r is Ok ==> {
                &&& final(self).net_delta == old(self).net_delta
                &&& final(self).liquidity == old(self).liquidity
                &&& final(self).bid_sizes == old(self).bid_sizes
                &&& final(self).ask_sizes == old(self).ask_sizes
                &&& all_set(old(self).flags@.update(index as int, true)) ==> final(self).state
                    == AmmState::CalculateDelta && all_clear(final(self).flags@)
                &&& !all_set(old(self).flags@.update(index as int, true)) ==> final(self).state
                    == AmmState::UpdateOrders && final(self).flags@ == old(self).flags@.update(
                    index as int,
                    true,
                )
            },
    {
        match self.state {
            AmmState::UpdateOrders => {},
            _ => {
                return Err(ErrorCode::WrongState);
            },
        }
        self.flags.set(index, true);
        if self.all_flags_set() {
            self.clear_flags();
            self.state = AmmState::CalculateDelta;
        }
        Ok(())
    }
}

} // verus!
