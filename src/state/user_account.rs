//! A user's account: positions per instrument, margin reserves and status.
use vstd::prelude::*;

use crate::errors::ErrorCode;
use crate::pubkey::Pubkey;

verus! {

/// The state of an account.
#[derive(Clone, Copy, Debug, PartialEq, Eq, Structural)]
pub enum AccountState {
    /// Not yet initialized.
    Uninitialized,
    /// Initialized; the owner may operate on it.
    Initialized,
    /// Frozen; no operation is permitted.
    Frozen,
}

/// A profit or loss recorded for settlement, with the epoch it belongs to.
#[derive(Clone, Copy, Debug, PartialEq, Eq, Structural)]
pub struct TempPnL {
    pub amount: i64,
    pub epoch: u64,
}

/// A user's long and short quantity of one instrument.
#[derive(Clone, Copy, Debug)]
pub struct UserPosition {
    pub instrument: Pubkey,
    pub long_qty: u64,
    pub short_qty: u64,
}

/// A user account of the exchange.
pub struct UserAccount {
    pub optifi_exchange: Pubkey,
    pub owner: Pubkey,
    /// The token account that holds the user's collateral.
    pub user_margin_account_usdc: Pubkey,
    pub temp_pnl: TempPnL,
    pub state: AccountState,
    /// One entry per instrument the user has traded.
    pub positions: Vec<UserPosition>,
    pub is_in_liquidation: bool,
    pub bump: u8,
    /// Margin reserved per asset.
    pub amount_to_reserve: [u64; 10],
}

/// The index of the first position on `key` among the first `n`, or -1.
pub open spec fn find_position(ps: Seq<UserPosition>, key: Pubkey, n: int) -> int
    decreases n,
{
    if n <= 0 {
        -1
    } else if find_position(ps, key, n - 1) >= 0 {
        find_position(ps, key, n - 1)
    } else if ps[n - 1].instrument == key {
        n - 1
    } else {
        -1
    }
}

/// The index of the first position on `key`, or -1.
pub open spec fn position_index(ps: Seq<UserPosition>, key: Pubkey) -> int {
    find_position(ps, key, ps.len() as int)
}

/// The first-match index is -1 or in range; it points at a position on the
/// key, and no earlier position is on it.
pub proof fn lemma_find_position(ps: Seq<UserPosition>, key: Pubkey, n: int)
    requires
        0 <= n <= ps.len(),
    ensures
        -1 <= find_position(ps, key, n) < n,
        find_position(ps, key, n) >= 0 ==> ps[find_position(ps, key, n)].instrument == key,
        find_position(ps, key, n) >= 0 ==> forall|i: int|
            0 <= i < find_position(ps, key, n) ==> ps[i].instrument != key,
        find_position(ps, key, n) == -1 ==> forall|i: int| 0 <= i < n ==> ps[i].instrument != key,
    decreases n,
{
    if n > 0 {
        lemma_find_position(ps, key, n - 1);
    }
}

proof fn lemma_index_is_first(ps: Seq<UserPosition>, key: Pubkey, i: int)
    requires
        0 <= i < ps.len(),
        ps[i].instrument == key,
        forall|k: int| 0 <= k < i ==> ps[k].instrument != key,
    ensures
        position_index(ps, key) == i,
{
    lemma_find_position(ps, key, ps.len() as int);
    let k = position_index(ps, key);
    if k == -1 {
        assert(ps[i].instrument != key);
    } else if k < i {
        assert(ps[k].instrument == key);
    } else if k > i {
        assert(ps[i].instrument != key);
    }
}

/// The positions after `qty` more is sold short of `instrument`: added to its
/// first position, or a new position at the end.
pub open spec fn with_short_added(ps: Seq<UserPosition>, instrument: Pubkey, qty: u64) -> Seq<UserPosition> {
    let k = position_index(ps, instrument);
    if k >= 0 {
        ps.update(k, UserPosition { short_qty: (ps[k].short_qty + qty) as u64, ..ps[k] })
    } else {
        ps.push(UserPosition { instrument, long_qty: 0, short_qty: qty })
    }
}

/// The sum of the first `n` entries.
pub open spec fn sum_reserve(v: Seq<u64>, n: int) -> int
    decreases n,
{
    if n <= 0 {
        0
    } else {
        sum_reserve(v, n - 1) + v[n - 1]
    }
}

impl UserPosition {
    /// The net quantity: long less short.
    pub open spec fn quantity_spec(&self) -> int {
        self.long_qty - self.short_qty
    }

    /// The instrument's key.
    pub fn get_instrument(&self) -> (r: &Pubkey)
        ensures
            *r == self.instrument,
    {
        &self.instrument
    }

    /// The net quantity: long less short.
    pub fn get_quantity(&self) -> (r: i64)
        requires
            i64::MIN <= self.quantity_spec() <= i64::MAX,
        ensures
            r == self.quantity_spec(),
    {
        ((self.long_qty as i128) - (self.short_qty as i128)) as i64
    }

    /// Whether the instrument is still listed among `instruments`.
    pub fn is_valid(&self, instruments: &Vec<Pubkey>) -> (r: bool)
        ensures
            r <==> instruments@.contains(self.instrument),
    {
        let mut i: usize = 0;
        while i < instruments.len()
            invariant
                i <= instruments@.len(),
                forall|k: int| 0 <= k < i ==> instruments@[k] != self.instrument,
            decreases instruments@.len() - i,
        {
            if instruments[i] == self.instrument {
                assert(instruments@[i as int] == self.instrument);
                return true;
            }
            i += 1;
        }
        false
    }
}

/// Which quantity of a position an update touches, and how.
enum Update {
    AddLong,
    AddShort,
    SetLong,
    SetShort,
}

/// The position after an update of `qty`, or a fresh one on `key`.
spec fn updated_position(p: UserPosition, u: Update, qty: u64) -> UserPosition {
    match u {
        Update::AddLong => UserPosition { long_qty: (p.long_qty + qty) as u64, ..p },
        Update::AddShort => UserPosition { short_qty: (p.short_qty + qty) as u64, ..p },
        Update::SetLong => UserPosition { long_qty: qty, ..p },
        Update::SetShort => UserPosition { short_qty: qty, ..p },
    }
}

spec fn fresh_position(key: Pubkey, u: Update, qty: u64) -> UserPosition {
    match u {
        Update::AddLong | Update::SetLong => UserPosition { instrument: key, long_qty: qty, short_qty: 0 },
        Update::AddShort | Update::SetShort => UserPosition { instrument: key, long_qty: 0, short_qty: qty },
    }
}

impl UserAccount {
    /// Whether the account is frozen.
    pub fn is_frozen(&self) -> (r: bool)
        ensures
            r <==> self.state == AccountState::Frozen,
    {
        match self.state {
            AccountState::Frozen => true,
            _ => false,
        }
    }

    /// Whether the account has been initialized.
    pub fn is_initialized(&self) -> (r: bool)
        ensures
            r <==> self.state != AccountState::Uninitialized,
    {
        match self.state {
            AccountState::Uninitialized => false,
            _ => true,
        }
    }

    /// The collateral the user can use: the balance of the margin token
    /// account, less a recorded loss; a recorded gain is not counted.
    pub fn get_available_margin(&self, margin_balance: u64) -> (r: u64)
        requires
            margin_balance + self.temp_pnl.amount >= 0,
        ensures
            r == (if self.temp_pnl.amount < 0 { margin_balance + self.temp_pnl.amount } else { margin_balance as int }),
    {
        let adjusted: i128 = margin_balance as i128 + self.temp_pnl.amount as i128;
        if adjusted < margin_balance as i128 {
            adjusted as u64
        } else {
            margin_balance
        }
    }

    fn apply_update(&mut self, instrument: Pubkey, qty: u64, u: Update)
        requires
            ({
                let k = position_index(old(self).positions@, instrument);
                k >= 0 ==> match u {
                    Update::AddLong => old(self).positions@[k].long_qty + qty <= u64::MAX,
                    Update::AddShort => old(self).positions@[k].short_qty + qty <= u64::MAX,
                    _ => true,
                }
            }),
        ensures
            ({
                let ps = old(self).positions@;
                let k = position_index(ps, instrument);
                &&& k >= 0 ==> final(self).positions@ == ps.update(k, updated_position(ps[k], u, qty))
                &&& k < 0 ==> final(self).positions@ == ps.push(fresh_position(instrument, u, qty))
            }),
            final(self).amount_to_reserve == old(self).amount_to_reserve,
            final(self).temp_pnl == old(self).temp_pnl,
            final(self).state == old(self).state,
            final(self).owner == old(self).owner,
            final(self).is_in_liquidation == old(self).is_in_liquidation,
    {
        let ghost ps = self.positions@;
        proof {
            lemma_find_position(ps, instrument, ps.len() as int);
        }
        let n = self.positions.len();
        let mut i: usize = 0;
        while i < n
            invariant
                n == ps.len(),
                ps == old(self).positions@,
                *self == *old(self),
                i <= n,
                ({
                    let k = position_index(old(self).positions@, instrument);
                    k >= 0 ==> match u {
                        Update::AddLong => old(self).positions@[k].long_qty + qty <= u64::MAX,
                        Update::AddShort => old(self).positions@[k].short_qty + qty <= u64::MAX,
                        _ => true,
                    }
                }),
                forall|k: int| 0 <= k < i ==> ps[k].instrument != instrument,
            decreases n - i,
        {
            if self.positions[i].instrument == instrument {
                proof {
                    lemma_index_is_first(ps, instrument, i as int);
                }
                let mut p = self.positions[i];
                match u {
                    Update::AddLong => {
                        p.long_qty = p.long_qty + qty;
                    },
                    Update::AddShort => {
                        p.short_qty = p.short_qty + qty;
                    },
                    Update::SetLong => {
                        p.long_qty = qty;
                    },
                    Update::SetShort => {
                        p.short_qty = qty;
                    },
                }
                self.positions.set(i, p);
                return;
            }
            i += 1;
        }
        let fresh = match u {
            Update::AddLong | Update::SetLong => UserPosition { instrument, long_qty: qty, short_qty: 0 },
            Update::AddShort | Update::SetShort => UserPosition { instrument, long_qty: 0, short_qty: qty },
        };
        self.positions.push(fresh);
    }

    /// Adds `qty` to the short quantity of the instrument, opening a position
    /// when the user has none on it.
    pub fn add_short_position(&mut self, instrument: Pubkey, qty: u64)
        requires
            ({
                let k = position_index(old(self).positions@, instrument);
                k >= 0 ==> old(self).positions@[k].short_qty + qty <= u64::MAX
            }),
        ensures
            ({
                let ps = old(self).positions@;
                let k = position_index(ps, instrument);
                &&& k >= 0 ==> final(self).positions@ == ps.update(
                    k,
                    UserPosition { short_qty: (ps[k].short_qty + qty) as u64, ..ps[k] },
                )
                &&& k < 0 ==> final(self).positions@ == ps.push(
                    UserPosition { instrument, long_qty: 0, short_qty: qty },
                )
            }),
            final(self).positions@ == with_short_added(old(self).positions@, instrument, qty),
            final(self).amount_to_reserve == old(self).amount_to_reserve,
            final(self).temp_pnl == old(self).temp_pnl,
            final(self).state == old(self).state,
            final(self).is_in_liquidation == old(self).is_in_liquidation,
    {
        self.apply_update(instrument, qty, Update::AddShort);
    }

    /// Adds `qty` to the long quantity of the instrument, opening a position
    /// when the user has none on it.
    pub fn add_long_position(&mut self, instrument: Pubkey, qty: u64)
        requires
            ({
                let k = position_index(old(self).positions@, instrument);
                k >= 0 ==> old(self).positions@[k].long_qty + qty <= u64::MAX
            }),
        ensures
            ({
                let ps = old(self).positions@;
                let k = position_index(ps, instrument);
                &&& k >= 0 ==> final(self).positions@ == ps.update(
                    k,
                    UserPosition { long_qty: (ps[k].long_qty + qty) as u64, ..ps[k] },
                )
                &&& k < 0 ==> final(self).positions@ == ps.push(
                    UserPosition { instrument, long_qty: qty, short_qty: 0 },
                )
            }),
            final(self).amount_to_reserve == old(self).amount_to_reserve,
            final(self).temp_pnl == old(self).temp_pnl,
            final(self).state == old(self).state,
    {
        self.apply_update(instrument, qty, Update::AddLong);
    }

    /// Sets the long quantity of the instrument, opening a position when the
    /// user has none on it.
    pub fn update_long_position(&mut self, instrument: Pubkey, qty: u64)
        ensures
            ({
                let ps = old(self).positions@;
                let k = position_index(ps, instrument);
                &&& k >= 0 ==> final(self).positions@ == ps.update(
                    k,
                    UserPosition { long_qty: qty, ..ps[k] },
                )
                &&& k < 0 ==> final(self).positions@ == ps.push(
                    UserPosition { instrument, long_qty: qty, short_qty: 0 },
                )
            }),
            final(self).amount_to_reserve == old(self).amount_to_reserve,
            final(self).temp_pnl == old(self).temp_pnl,
            final(self).state == old(self).state,
    {
        self.apply_update(instrument, qty, Update::SetLong);
    }

    /// Sets the short quantity of the instrument, opening a position when the
    /// user has none on it.
    pub fn update_short_position(&mut self, instrument: Pubkey, qty: u64)
        ensures
            ({
                let ps = old(self).positions@;
                let k = position_index(ps, instrument);
                &&& k >= 0 ==> final(self).positions@ == ps.update(
                    k,
                    UserPosition { short_qty: qty, ..ps[k] },
                )
                &&& k < 0 ==> final(self).positions@ == ps.push(
                    UserPosition { instrument, long_qty: 0, short_qty: qty },
                )
            }),
            final(self).amount_to_reserve == old(self).amount_to_reserve,
            final(self).temp_pnl == old(self).temp_pnl,
            final(self).state == old(self).state,
    {
        self.apply_update(instrument, qty, Update::SetShort);
    }

    /// The net quantity the user holds of an instrument, 0 when none.
    pub open spec fn quantity_of(&self, instrument: Pubkey) -> int {
        let k = position_index(self.positions@, instrument);
        if k >= 0 { self.positions@[k].quantity_spec() } else { 0 }
    }

    /// Every position's net quantity fits in `i64`.
    pub open spec fn quantities_fit(&self) -> bool {
        forall|i: int|
            0 <= i < self.positions@.len() ==> i64::MIN <= (#[trigger] self.positions@[i]).quantity_spec()
                <= i64::MAX
    }

    /// The net quantity the user holds of an instrument, 0 when none.
    pub fn get_quantity(&self, instrument: Pubkey) -> (r: i64)
        requires
            self.quantities_fit(),
        ensures
            r == self.quantity_of(instrument),
    {
        let ghost ps = self.positions@;
        proof {
            lemma_find_position(ps, instrument, ps.len() as int);
        }
        let mut i: usize = 0;
        while i < self.positions.len()
            invariant
                self.positions@ == ps,
                self.quantities_fit(),
                i <= ps.len(),
                forall|k: int| 0 <= k < i ==> ps[k].instrument != instrument,
            decreases ps.len() - i,
        {
            if self.positions[i].instrument == instrument {
                proof {
                    lemma_index_is_first(ps, instrument, i as int);
                    assert(i64::MIN <= ps[i as int].quantity_spec() <= i64::MAX);
                }
                return self.positions[i].get_quantity();
            }
            i += 1;
        }
        0
    }

    /// The user's net quantity of each of `instruments`, 0 where the user holds
    /// no position.
    pub fn position_vector(&self, instruments: &Vec<Pubkey>) -> (r: Vec<i64>)
        requires
            self.quantities_fit(),
        ensures
            r@.len() == instruments@.len(),
            forall|i: int| 0 <= i < r@.len() ==> r@[i] == self.quantity_of(#[trigger] instruments@[i]),
    {
        let mut out: Vec<i64> = Vec::new();
        let mut i: usize = 0;
        while i < instruments.len()
            invariant
                self.quantities_fit(),
                i <= instruments@.len(),
                out@.len() == i,
                forall|k: int| 0 <= k < i ==> out@[k] == self.quantity_of(#[trigger] instruments@[k]),
            decreases instruments@.len() - i,
        {
            out.push(self.get_quantity(instruments[i]));
            i += 1;
        }
        out
    }

    /// The total margin reserved over all assets.
    pub fn get_maintanance_margin(&self) -> (r: u64)
        requires
            sum_reserve(self.amount_to_reserve@, 10) <= u64::MAX,
        ensures
            r == sum_reserve(self.amount_to_reserve@, 10),
    {
        let mut total: u64 = 0;
        let mut i: usize = 0;
        while i < 10
            invariant
                i <= 10,
                self.amount_to_reserve@.len() == 10,
                total == sum_reserve(self.amount_to_reserve@, i as int),
                sum_reserve(self.amount_to_reserve@, 10) <= u64::MAX,
            decreases 10 - i,
        {
            proof {
                lemma_sum_reserve_monotone(self.amount_to_reserve@, i as int + 1, 10);
            }
            total = total + self.amount_to_reserve[i];
            i += 1;
        }
        total
    }

    /// Keeps only the positions whose instrument is still listed, in order.
    pub fn clean_expired_positions(&mut self, instruments: &Vec<Pubkey>)
        ensures
            final(self).positions@ == old(self).positions@.filter(
                |p: UserPosition| instruments@.contains(p.instrument),
            ),
            final(self).amount_to_reserve == old(self).amount_to_reserve,
            final(self).state == old(self).state,
    {
        let ghost ps = self.positions@;
        let ghost keep = |p: UserPosition| instruments@.contains(p.instrument);
        let mut kept: Vec<UserPosition> = Vec::new();
        let mut i: usize = 0;
        while i < self.positions.len()
            invariant
                ps == self.positions@,
                i <= ps.len(),
                keep == (|p: UserPosition| instruments@.contains(p.instrument)),
                kept@ == ps.take(i as int).filter(keep),
            decreases ps.len() - i,
        {
            let p = self.positions[i];
            let valid = p.is_valid(instruments);
            proof {
                reveal(Seq::filter);
                assert(ps.take(i as int + 1).drop_last() =~= ps.take(i as int));
            }
            if valid {
                kept.push(p);
            }
            i += 1;
        }
        proof {
            assert(ps.take(ps.len() as int) =~= ps);
        }
        self.positions = kept;
    }

    /// Checks a withdrawal of `amount` from the user's margin account, which
    /// holds `user_margin`: the signer must own the account, the token account
    /// must be the user's, and what stays must cover the reserved margin.
    pub fn check_withdrawal(&self, signer: Pubkey, token_account: Pubkey, user_margin: u64, amount: u64) -> (r:
        Result<(), ErrorCode>)
        ensures
            self.owner != signer <==> r == Err::<(), ErrorCode>(ErrorCode::UnauthorizedAccount),
            (self.owner == signer && self.user_margin_account_usdc != token_account) <==> r == Err::<
                (),
                ErrorCode,
            >(ErrorCode::UnauthorizedTokenVault),
            (self.owner == signer && self.user_margin_account_usdc == token_account && user_margin
                < sum_reserve(self.amount_to_reserve@, 10) + amount) <==> r == Err::<(), ErrorCode>(
                ErrorCode::InsufficientFund,
            ),
            r is Ok <==> (self.owner == signer && self.user_margin_account_usdc == token_account
                && user_margin >= sum_reserve(self.amount_to_reserve@, 10) + amount),
    {
        if !(self.owner == signer) {
            return Err(ErrorCode::UnauthorizedAccount);
        }
        if !(self.user_margin_account_usdc == token_account) {
            return Err(ErrorCode::UnauthorizedTokenVault);
        }
        let mut total: u128 = 0;
        let mut i: usize = 0;
        while i < 10
            invariant
                i <= 10,
                self.amount_to_reserve@.len() == 10,
                total == sum_reserve(self.amount_to_reserve@, i as int),
                total <= i * 0xffff_ffff_ffff_ffff,
            decreases 10 - i,
        {
            total = total + self.amount_to_reserve[i] as u128;
            i += 1;
        }
        if (user_margin as u128) < total + amount as u128 {
            return Err(ErrorCode::InsufficientFund);
        }
        Ok(())
    }
}

proof fn lemma_sum_reserve_monotone(v: Seq<u64>, a: int, b: int)
    requires
        0 <= a <= b,
    ensures
        sum_reserve(v, a) <= sum_reserve(v, b),
    decreases b - a,
{
    if a < b {
        lemma_sum_reserve_monotone(v, a, b - 1);
    }
}

} // verus!
