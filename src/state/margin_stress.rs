//! The margin-stress cycle of one asset: Sync pulls market data, Calculate
//! computes each instrument's stress results a few at a time, and Available
//! lets users' margins be read.
use vstd::prelude::*;

use crate::asset::Asset;
use crate::constants::INSTRUMENTS_PER_STEP;
use crate::errors::ErrorCode;
use crate::margin::{margin_function, margin_outcome};
use crate::pubkey::Pubkey;
use crate::state::exchange::Exchange;
use crate::state::user_account::UserAccount;

verus! {

/// The phase of the margin-stress cycle.
#[derive(Clone, Copy, Debug, PartialEq, Eq, Structural)]
pub enum MarginStressState {
    Sync,
    Calculate,
    Available,
}

/// The phase that follows `s`.
pub open spec fn next_state(s: MarginStressState) -> MarginStressState {
    match s {
        MarginStressState::Sync => MarginStressState::Calculate,
        MarginStressState::Calculate => MarginStressState::Available,
        MarginStressState::Available => MarginStressState::Sync,
    }
}

/// The stress results of every instrument of one asset, and the cycle state.
pub struct MarginStressAccount {
    pub optifi_exchange: Pubkey,
    pub bump: u8,
    pub asset: Asset,
    /// Spot at fixed-point scale, as of the last sync.
    pub spot_price: u64,
    /// Implied volatility at fixed-point scale, as of the last sync.
    pub iv: u64,
    /// Unix time of the last sync.
    pub timestamp: u64,
    pub state: MarginStressState,
    /// Whether each instrument's results are computed in this cycle.
    pub flags: Vec<bool>,
    pub instruments: Vec<Pubkey>,
    pub strikes: Vec<u64>,
    pub is_call: Vec<u8>,
    pub expiry_date: Vec<u64>,
    pub option_price: Vec<u64>,
    pub intrinsic_value: Vec<u64>,
    pub option_price_delta_in_stress_price: Vec<Vec<i64>>,
}

/// Whether every flag is set.
pub open spec fn all_set(flags: Seq<bool>) -> bool {
    forall|i: int| 0 <= i < flags.len() ==> #[trigger] flags[i]
}

/// Whether every flag is clear.
pub open spec fn all_clear(flags: Seq<bool>) -> bool {
    forall|i: int| 0 <= i < flags.len() ==> !#[trigger] flags[i]
}

/// The position of the first instrument on `key`, or -1.
pub open spec fn first_index(keys: Seq<Pubkey>, key: Pubkey, n: int) -> int
    decreases n,
{
    if n <= 0 {
        -1
    } else if first_index(keys, key, n - 1) >= 0 {
        first_index(keys, key, n - 1)
    } else if keys[n - 1] == key {
        n - 1
    } else {
        -1
    }
}

proof fn lemma_first_index(keys: Seq<Pubkey>, key: Pubkey, n: int)
    requires
        0 <= n <= keys.len(),
    ensures
        -1 <= first_index(keys, key, n) < n,
        first_index(keys, key, n) >= 0 ==> keys[first_index(keys, key, n)] == key,
        first_index(keys, key, n) >= 0 ==> forall|i: int|
            0 <= i < first_index(keys, key, n) ==> keys[i] != key,
        first_index(keys, key, n) == -1 ==> forall|i: int| 0 <= i < n ==> keys[i] != key,
    decreases n,
{
    if n > 0 {
        lemma_first_index(keys, key, n - 1);
    }
}

/// Times to maturity, in seconds, of instruments expiring at `expiry` seen at `now`.
pub open spec fn seconds_to_expiry(expiry: Seq<u64>, now: u64) -> Seq<u64> {
    Seq::new(expiry.len(), |i: int| (expiry[i] - now) as u64)
}

/// Times to maturity, in seconds, of instruments expiring at `expiry` seen at
/// `now`; an error when one has already expired.
pub fn times_to_maturity(expiry: &Vec<u64>, now: u64) -> (r: Result<Vec<u64>, ErrorCode>)
    ensures
        (exists|i: int| 0 <= i < expiry@.len() && #[trigger] expiry@[i] < now) <==> r == Err::<
            Vec<u64>,
            ErrorCode,
        >(ErrorCode::InstrumentExpired),
        r is Ok <==> !(exists|i: int| 0 <= i < expiry@.len() && #[trigger] expiry@[i] < now),
        r is Ok ==> r->Ok_0@ == seconds_to_expiry(expiry@, now),
{
    let mut out: Vec<u64> = Vec::new();
    let mut i: usize = 0;
    while i < expiry.len()
        invariant
            i <= expiry@.len(),
            out@.len() == i,
            forall|k: int| 0 <= k < i ==> expiry@[k] >= now,
            forall|k: int| 0 <= k < i ==> #[trigger] out@[k] == (expiry@[k] - now) as u64,
        decreases expiry@.len() - i,
    {
        if expiry[i] < now {
            return Err(ErrorCode::InstrumentExpired);
        }
        out.push(expiry[i] - now);
        i += 1;
    }
    assert(out@ =~= seconds_to_expiry(expiry@, now));
    Ok(out)
}

/// A user's net quantity of each instrument in `keys`.
pub open spec fn user_positions(user: &UserAccount, keys: Seq<Pubkey>) -> Seq<i64> {
    Seq::new(keys.len(), |i: int| user.quantity_of(keys[i]) as i64)
}

/// The indices of the first at most `limit` flags among the first `n` that
/// are clear, in order.
pub open spec fn first_uncomputed(flags: Seq<bool>, n: int, limit: int) -> Seq<usize>
    decreases n,
{
    if n <= 0 {
        seq![]
    } else {
        let prev = first_uncomputed(flags, n - 1, limit);
        if !flags[n - 1] && prev.len() < limit {
            prev.push((n - 1) as usize)
        } else {
            prev
        }
    }
}

proof fn lemma_first_uncomputed_len(flags: Seq<bool>, n: int, limit: int)
    requires
        0 <= limit,
        0 <= n,
    ensures
        first_uncomputed(flags, n, limit).len() <= limit,
        first_uncomputed(flags, n, limit).len() <= n,
    decreases n,
{
    if n > 0 {
        lemma_first_uncomputed_len(flags, n - 1, limit);
    }
}

/// The expiry dates of an asset's listed instruments, in listing order.
pub open spec fn listed_expiries(exchange: &Exchange, asset: Asset) -> Seq<u64> {
    Seq::new(exchange.rows(Some(asset)).len(), |i: int| exchange.rows(Some(asset))[i].3)
}

/// Whether one of the expiry dates lies before `now`.
pub open spec fn any_expired(expiry: Seq<u64>, now: u64) -> bool {
    exists|i: int| 0 <= i < expiry.len() && #[trigger] expiry[i] < now
}

impl MarginStressAccount {
    /// What `user_margin` returns: `WrongState` outside Available,
    /// `InstrumentExpired` when a listed instrument of the asset has expired,
    /// then the outcome of the margin computation over the user's positions,
    /// whose deficit is the reserve.
    pub open spec fn margin_outcome_for(&self, exchange: &Exchange, user: &UserAccount) -> Result<
        u64,
        ErrorCode,
    > {
        let expiry = listed_expiries(exchange, self.asset);
        if self.state != MarginStressState::Available {
            Err(ErrorCode::WrongState)
        } else if any_expired(expiry, self.timestamp) {
            Err(ErrorCode::InstrumentExpired)
        } else {
            match margin_outcome(
                user_positions(user, self.instruments@),
                seconds_to_expiry(expiry, self.timestamp),
                self.option_price@,
                self.intrinsic_value@,
                self.option_price_delta_in_stress_price@,
            ) {
                Ok(m) => Ok((-m) as u64),
                Err(e) => Err(e),
            }
        }
    }

    /// Every per-instrument vector has one entry per instrument.
    pub open spec fn wf(&self) -> bool {
        let n = self.instruments@.len();
        &&& self.flags@.len() == n
        &&& self.strikes@.len() == n
        &&& self.is_call@.len() == n
        &&& self.expiry_date@.len() == n
        &&& self.option_price@.len() == n
        &&& self.intrinsic_value@.len() == n
        &&& self.option_price_delta_in_stress_price@.len() == n
    }

    /// An account for `asset`, listing the exchange's instruments of that
    /// asset, with nothing computed yet and the cycle at Sync.
    pub fn new(optifi_exchange: Pubkey, bump: u8, asset: Asset, exchange: &Exchange) -> (r: MarginStressAccount)
        requires
            exchange.wf(),
        ensures
            r.wf(),
            r.state == MarginStressState::Sync,
            r.asset == asset,
            r.optifi_exchange == optifi_exchange,
            r.instruments@.len() == exchange.rows(Some(asset)).len(),
            forall|i: int|
                0 <= i < r.instruments@.len() ==> {
                    &&& r.instruments@[i] == (#[trigger] exchange.rows(Some(asset))[i]).0
                    &&& r.strikes@[i] == exchange.rows(Some(asset))[i].1
                    &&& r.is_call@[i] == exchange.rows(Some(asset))[i].2
                    &&& r.expiry_date@[i] == exchange.rows(Some(asset))[i].3
                },
            all_clear(r.flags@),
            forall|i: int| 0 <= i < r.instruments@.len() ==> #[trigger] r.option_price@[i] == 0,
            forall|i: int| 0 <= i < r.instruments@.len() ==> #[trigger] r.intrinsic_value@[i] == 0,
            forall|i: int|
                0 <= i < r.instruments@.len() ==> (#[trigger] r.option_price_delta_in_stress_price@[i])@.len()
                    == 0,
    {
        let (instruments, strikes, is_call, expiry_date) = exchange.get_instrument_data_with_asset(asset);
        let len = instruments.len();
        let mut changes: Vec<Vec<i64>> = Vec::new();
        let mut i: usize = 0;
        while i < len
            invariant
                i <= len,
                changes@.len() == i,
                forall|k: int| 0 <= k < i ==> (#[trigger] changes@[k])@.len() == 0,
            decreases len - i,
        {
            changes.push(Vec::new());
            i += 1;
        }
        MarginStressAccount {
            optifi_exchange,
            bump,
            asset,
            spot_price: 0,
            iv: 0,
            timestamp: 0,
            state: MarginStressState::Sync,
            flags: vec![false; len],
            instruments,
            strikes,
            is_call,
            expiry_date,
            option_price: vec![0u64; len],
            intrinsic_value: vec![0u64; len],
            option_price_delta_in_stress_price: changes,
        }
    }

    /// Moves the cycle to its next phase: Sync, Calculate, Available, Sync.
    pub fn move_to_next_state(&mut self)
        ensures
            *final(self) == (MarginStressAccount { state: next_state(old(self).state), ..*old(self) }),
    {
        match self.state {
            MarginStressState::Sync => self.state = MarginStressState::Calculate,
            MarginStressState::Calculate => self.state = MarginStressState::Available,
            MarginStressState::Available => self.state = MarginStressState::Sync,
        }
    }

    /// The base price of a listed instrument (the first entry on its key).
    pub fn get_option_price(&self, instrument: Pubkey) -> (r: u64)
        requires
            self.wf(),
            self.instruments@.contains(instrument),
        ensures
            ({
                let k = first_index(self.instruments@, instrument, self.instruments@.len() as int);
                &&& 0 <= k
                &&& r == self.option_price@[k]
            }),
    {
        let ghost keys = self.instruments@;
        proof {
            lemma_first_index(keys, instrument, keys.len() as int);
            let w = choose|w: int| 0 <= w < keys.len() && keys[w] == instrument;
            if first_index(keys, instrument, keys.len() as int) == -1 {
                assert(keys[w] != instrument);
            }
        }
        let mut i: usize = 0;
        while i < self.instruments.len()
            invariant
                self.wf(),
                keys == self.instruments@,
                i <= keys.len(),
                forall|k: int| 0 <= k < i ==> keys[k] != instrument,
                0 <= first_index(keys, instrument, keys.len() as int) < keys.len(),
                keys[first_index(keys, instrument, keys.len() as int)] == instrument,
                forall|k: int|
                    0 <= k < first_index(keys, instrument, keys.len() as int) ==> keys[k] != instrument,
            decreases keys.len() - i,
        {
            if self.instruments[i] == instrument {
                let ghost k = first_index(keys, instrument, keys.len() as int);
                assert(k == i) by {
                    if k < i {
                        assert(keys[k] != instrument);
                    } else if k > i {
                        assert(keys[i as int] != instrument);
                    }
                }
                return self.option_price[i];
            }
            i += 1;
        }
        proof {
            let k = first_index(keys, instrument, keys.len() as int);
            assert(keys[k] != instrument);
        }
        0
    }

    /// Records fresh market data and starts a new Calculate phase with every
    /// instrument marked as not computed. Only allowed from Sync or Available.
    pub fn sync(&mut self, spot_price: u64, iv: u64, now: u64) -> (r: Result<(), ErrorCode>)
        requires
            old(self).wf(),
        ensures
            final(self).wf(),
            old(self).state == MarginStressState::Calculate <==> r == Err::<(), ErrorCode>(
                ErrorCode::WrongState,
            ),
            old(self).state != MarginStressState::Calculate <==> r is Ok,
            r is Err ==> *final(self) == *old(self),
            r is Ok ==> {
                &&& final(self).state == MarginStressState::Calculate
                &&& final(self).spot_price == spot_price
                &&& final(self).iv == iv
                &&& final(self).timestamp == now
                &&& final(self).flags@.len() == old(self).flags@.len()
                &&& all_clear(final(self).flags@)
                &&& final(self).instruments == old(self).instruments
                &&& final(self).option_price == old(self).option_price
                &&& final(self).intrinsic_value == old(self).intrinsic_value
                &&& final(self).option_price_delta_in_stress_price == old(
                    self,
                ).option_price_delta_in_stress_price
            },
    {
        match self.state {
            MarginStressState::Calculate => {
                return Err(ErrorCode::WrongState);
            },
            _ => {},
        }
        self.spot_price = spot_price;
        self.iv = iv;
        self.timestamp = now;
        self.clear_flags();
        self.state = MarginStressState::Calculate;
        Ok(())
    }

    fn clear_flags(&mut self)
        ensures
            final(self).flags@.len() == old(self).flags@.len(),
            all_clear(final(self).flags@),
            final(self).instruments == old(self).instruments,
            final(self).strikes == old(self).strikes,
            final(self).is_call == old(self).is_call,
            final(self).expiry_date == old(self).expiry_date,
            final(self).option_price == old(self).option_price,
            final(self).intrinsic_value == old(self).intrinsic_value,
            final(self).option_price_delta_in_stress_price == old(self).option_price_delta_in_stress_price,
            final(self).state == old(self).state,
            final(self).spot_price == old(self).spot_price,
            final(self).iv == old(self).iv,
            final(self).timestamp == old(self).timestamp,
            final(self).asset == old(self).asset,
    {
        let n = self.flags.len();
        let mut i: usize = 0;
        while i < n
            invariant
                n == self.flags@.len(),
                i <= n,
                forall|k: int| 0 <= k < i ==> !#[trigger] self.flags@[k],
                self.instruments == old(self).instruments,
                self.strikes == old(self).strikes,
                self.is_call == old(self).is_call,
                self.expiry_date == old(self).expiry_date,
                self.option_price == old(self).option_price,
                self.intrinsic_value == old(self).intrinsic_value,
                self.option_price_delta_in_stress_price == old(self).option_price_delta_in_stress_price,
                self.state == old(self).state,
                self.spot_price == old(self).spot_price,
                self.iv == old(self).iv,
                self.timestamp == old(self).timestamp,
                self.asset == old(self).asset,
                n == old(self).flags@.len(),
            decreases n - i,
        {
            self.flags.set(i, false);
            i += 1;
        }
    }

    /// The first instrument whose results are not computed yet in this cycle.
    pub fn next_uncomputed(&self) -> (r: Option<usize>)
        ensures
            r is None <==> all_set(self.flags@),
            r is Some ==> {
                let k = r->Some_0 as int;
                &&& 0 <= k < self.flags@.len()
                &&& !self.flags@[k]
                &&& forall|i: int| 0 <= i < k ==> #[trigger] self.flags@[i]
            },
    {
        let mut i: usize = 0;
        while i < self.flags.len()
            invariant
                i <= self.flags@.len(),
                forall|k: int| 0 <= k < i ==> #[trigger] self.flags@[k],
            decreases self.flags@.len() - i,
        {
            if !self.flags[i] {
                return Some(i);
            }
            i += 1;
        }
        None
    }

    /// What pricing instrument `index` needs: its strike, whether it is a
    /// call, and its time to maturity in seconds as of the last sync. Errors
    /// when the exchange does not list it or it has expired.
    pub fn instrument_inputs(&self, index: usize, exchange: &Exchange) -> (r: Result<(u32, bool, u64), ErrorCode>)
        requires
            exchange.wf(),
            index < self.instruments@.len(),
        ensures
            ({
                let key = self.instruments@[index as int];
                &&& (!exists|a: int, b: int, c: int| exchange.lists_at(key, a, b, c)) <==> r == Err::<
                    (u32, bool, u64),
                    ErrorCode,
                >(ErrorCode::InstrumentNotFound)
                &&& forall|a: int, b: int, c: int|
                    #[trigger] exchange.first_listing(key, a, b, c) ==> {
                        let expiry = exchange.instrument_common@[a].expiry_date;
                        &&& expiry < self.timestamp ==> r == Err::<(u32, bool, u64), ErrorCode>(
                            ErrorCode::InstrumentExpired,
                        )
                        &&& expiry >= self.timestamp ==> r == Ok::<(u32, bool, u64), ErrorCode>(
                            (
                                exchange.instrument_unique@[a]@[b].strike,
                                c != 0,
                                (expiry - self.timestamp) as u64,
                            ),
                        )
                    }
            }),
    {
        let found = exchange.get_instrument_data(&self.instruments[index]);
        proof {
            let key = self.instruments@[index as int];
            if found is Some {
                let (a0, b0, c0) = choose|a: int, b: int, c: int|
                    {
                        &&& #[trigger] exchange.first_listing(key, a, b, c)
                        &&& found->Some_0.0 == exchange.instrument_common@[a]
                        &&& found->Some_0.1 == exchange.instrument_unique@[a]@[b].strike
                        &&& found->Some_0.2 == (c != 0)
                    };
                assert forall|a: int, b: int, c: int| #[trigger]
                    exchange.first_listing(key, a, b, c) implies a == a0 && b == b0 && c == c0 by {
                    exchange.lemma_first_listing_unique(key, a, b, c, a0, b0, c0);
                }
            }
        }
        match found {
            None => Err(ErrorCode::InstrumentNotFound),
            Some((common, strike, is_call)) => {
                if common.expiry_date < self.timestamp {
                    Err(ErrorCode::InstrumentExpired)
                } else {
                    Ok((strike, is_call, common.expiry_date - self.timestamp))
                }
            },
        }
    }

    /// The instruments one Calculate step computes: the first
    /// `INSTRUMENTS_PER_STEP` not yet computed, in index order. Rejected
    /// outside the Calculate phase.
    pub fn calculate_step_indices(&self) -> (r: Result<Vec<usize>, ErrorCode>)
        ensures
            self.state != MarginStressState::Calculate <==> r == Err::<Vec<usize>, ErrorCode>(
                ErrorCode::WrongState,
            ),
            r is Ok ==> r->Ok_0@ == first_uncomputed(
                self.flags@,
                self.flags@.len() as int,
                INSTRUMENTS_PER_STEP as int,
            ),
    {
        match self.state {
            MarginStressState::Calculate => {},
            _ => {
                return Err(ErrorCode::WrongState);
            },
        }
        let mut out: Vec<usize> = Vec::new();
        let mut i: usize = 0;
        while i < self.flags.len()
            invariant
                i <= self.flags@.len(),
                out@ == first_uncomputed(self.flags@, i as int, INSTRUMENTS_PER_STEP as int),
            decreases self.flags@.len() - i,
        {
            if !self.flags[i] && out.len() < INSTRUMENTS_PER_STEP {
                out.push(i);
            }
            proof {
                lemma_first_uncomputed_len(self.flags@, i as int, INSTRUMENTS_PER_STEP as int);
            }
            i += 1;
        }
        Ok(out)
    }

    /// Stores the stress results of instrument `index` and marks it computed.
    /// Only allowed in the Calculate phase.
    pub fn record_stress_result(
        &mut self,
        index: usize,
        price: u64,
        intrinsic: u64,
        price_changes: Vec<i64>,
    ) -> (r: Result<(), ErrorCode>)
        requires
            old(self).wf(),
            index < old(self).instruments@.len(),
        ensures
            final(self).wf(),
            old(self).state != MarginStressState::Calculate <==> r == Err::<(), ErrorCode>(
                ErrorCode::WrongState,
            ),
            old(self).state == MarginStressState::Calculate <==> r is Ok,
            r is Err ==> *final(self) == *old(self),
            r is Ok ==> {
                &&& final(self).state == old(self).state
                &&& final(self).flags@ == old(self).flags@.update(index as int, true)
                &&& final(self).option_price@ == old(self).option_price@.update(index as int, price)
                &&& final(self).intrinsic_value@ == old(self).intrinsic_value@.update(
                    index as int,
                    intrinsic,
                )
                &&& final(self).option_price_delta_in_stress_price@ == old(
                    self,
                ).option_price_delta_in_stress_price@.update(index as int, price_changes)
                &&& final(self).instruments == old(self).instruments
            },
    {
        match self.state {
            MarginStressState::Calculate => {},
            _ => {
                return Err(ErrorCode::WrongState);
            },
        }
        self.flags.set(index, true);
        self.option_price.set(index, price);
        self.intrinsic_value.set(index, intrinsic);
        self.option_price_delta_in_stress_price.set(index, price_changes);
        Ok(())
    }

    /// Ends the Calculate phase once every instrument is computed: clears the
    /// flags and moves to Available. Returns whether it did.
    pub fn finish_if_complete(&mut self) -> (r: bool)
        requires
            old(self).wf(),
        ensures
            final(self).wf(),
            r <==> (old(self).state == MarginStressState::Calculate && all_set(old(self).flags@)),
            r ==> final(self).state == MarginStressState::Available && all_clear(final(self).flags@)
                && final(self).flags@.len() == old(self).flags@.len(),
            !r ==> *final(self) == *old(self),
            final(self).option_price == old(self).option_price,
            final(self).intrinsic_value == old(self).intrinsic_value,
            final(self).option_price_delta_in_stress_price == old(self).option_price_delta_in_stress_price,
    {
        match self.state {
            MarginStressState::Calculate => {},
            _ => {
                return false;
            },
        }
        if self.next_uncomputed().is_some() {
            return false;
        }
        self.clear_flags();
        self.move_to_next_state();
        true
    }

    /// The margin requirement of `user` on this asset from the computed
    /// stress results, recorded in the user's reserve for the asset. Only
    /// allowed in the Available phase.
    pub fn user_margin(&self, exchange: &Exchange, user: &mut UserAccount) -> (r: Result<u64, ErrorCode>)
        requires
            exchange.wf(),
            old(user).quantities_fit(),
        ensures
            r == self.margin_outcome_for(exchange, old(user)),
            r is Ok ==> final(user).amount_to_reserve@ == old(user).amount_to_reserve@.update(
                self.asset.index_spec(),
                r->Ok_0,
            ),
            r is Err ==> final(user).amount_to_reserve == old(user).amount_to_reserve,
            final(user).positions == old(user).positions,
            final(user).is_in_liquidation == old(user).is_in_liquidation,
    {
        match self.state {
            MarginStressState::Available => {},
            _ => {
                return Err(ErrorCode::WrongState);
            },
        }
        let positions = user.position_vector(&self.instruments);
        let expiry = exchange.get_expiry_date_with_asset(self.asset);
        proof {
            assert(expiry@ =~= listed_expiries(exchange, self.asset));
        }
        let t = match times_to_maturity(&expiry, self.timestamp) {
            Ok(t) => t,
            Err(e) => {
                return Err(e);
            },
        };
        let ghost expiry_spec = Seq::new(
            exchange.rows(Some(self.asset)).len(),
            |i: int| exchange.rows(Some(self.asset))[i].3,
        );
        proof {
            assert(expiry@ =~= expiry_spec);
            assert(positions@ =~= user_positions(user, self.instruments@));
        }
        let margin = match margin_function(
            positions,
            &t,
            &self.option_price,
            &self.intrinsic_value,
            &self.option_price_delta_in_stress_price,
        ) {
            Ok(m) => m,
            Err(e) => {
                return Err(e);
            },
        };
        assert(margin <= 0);
        let amount = crate::margin::amount_to_reserve(margin);
        user.amount_to_reserve[self.asset.index()] = amount;
        Ok(amount)
    }
}

} // verus!
