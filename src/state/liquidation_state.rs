//! The positions of a user under liquidation, worst first.
use vstd::prelude::*;

use crate::pubkey::Pubkey;

verus! {

/// Where a user stands in the liquidation process.
#[derive(Clone, Copy, Debug, PartialEq, Eq, Structural)]
pub enum LiquidationStatus {
    Healthy,
    CancelOrder,
    ClosePositions,
}

/// The registered positions of a user under liquidation, each with its value.
pub struct LiquidationState {
    pub user_account: Pubkey,
    pub status: LiquidationStatus,
    pub instruments: Vec<Pubkey>,
    pub values: Vec<i64>,
}

/// The index of the most negative of the first `n` values, the earliest one
/// on ties; 0 when none is negative.
pub open spec fn largest_index(values: Seq<i64>, n: int) -> int
    decreases n,
{
    if n <= 0 {
        0
    } else {
        let k = largest_index(values, n - 1);
        let best = if k < n - 1 && values[k] < 0 { values[k] as int } else { 0 };
        if (values[n - 1] as int) < best { n - 1 } else { k }
    }
}

/// The value that `largest_index` compares against: the most negative of the
/// first `n` values, or 0.
pub open spec fn largest_value(values: Seq<i64>, n: int) -> int
    decreases n,
{
    if n <= 0 {
        0
    } else {
        let prev = largest_value(values, n - 1);
        if (values[n - 1] as int) < prev { values[n - 1] as int } else { prev }
    }
}

proof fn lemma_largest(values: Seq<i64>, n: int)
    requires
        0 <= n <= values.len(),
    ensures
        0 <= largest_index(values, n) < (if n == 0 { 1 } else { n }),
        largest_value(values, n) <= 0,
        largest_value(values, n) < 0 ==> values[largest_index(values, n)] == largest_value(values, n),
        largest_value(values, n) == 0 ==> largest_index(values, n) == 0,
        forall|i: int| 0 <= i < n ==> largest_value(values, n) <= values[i],
    decreases n,
{
    if n > 0 {
        lemma_largest(values, n - 1);
    }
}

impl LiquidationState {
    /// Instruments and values are registered in pairs.
    pub open spec fn wf(&self) -> bool {
        self.instruments@.len() == self.values@.len()
    }

    /// Removes and returns the position of most negative value (the earliest
    /// one on ties, the first one when none is negative): the next position to
    /// liquidate.
    pub fn pop_largest(&mut self) -> (r: Pubkey)
        requires
            old(self).wf(),
            old(self).instruments@.len() > 0,
        ensures
            final(self).wf(),
            ({
                let k = largest_index(old(self).values@, old(self).values@.len() as int);
                &&& 0 <= k < old(self).values@.len()
                &&& r == old(self).instruments@[k]
                &&& final(self).instruments@ == old(self).instruments@.remove(k)
                &&& final(self).values@ == old(self).values@.remove(k)
                &&& forall|i: int|
                    0 <= i < old(self).values@.len() ==> old(self).values@[k] <= old(self).values@[i]
                        || old(self).values@[i] >= 0
            }),
            final(self).user_account == old(self).user_account,
            final(self).status == old(self).status,
    {
        let mut temp: i64 = 0;
        let mut index: usize = 0;
        let n = self.instruments.len();
        let mut i: usize = 0;
        while i < n
            invariant
                n == self.instruments@.len(),
                n == self.values@.len(),
                i <= n,
                index == largest_index(self.values@, i as int),
                temp == largest_value(self.values@, i as int),
            decreases n - i,
        {
            proof {
                lemma_largest(self.values@, i as int);
            }
            let v = self.values[i];
            if v < temp {
                temp = v;
                index = i;
            }
            i += 1;
        }
        proof {
            lemma_largest(self.values@, n as int);
        }
        let result = self.instruments[index];
        self.instruments.remove(index);
        self.values.remove(index);
        result
    }

    /// Clears the liquidation state once liquidation is finished.
    pub fn liquidation_complete(&mut self)
        ensures
            final(self).status == LiquidationStatus::Healthy,
            final(self).instruments@.len() == 0,
            final(self).values@.len() == 0,
            final(self).user_account == old(self).user_account,
    {
        self.status = LiquidationStatus::Healthy;
        self.instruments = Vec::new();
        self.values = Vec::new();
    }

    /// Registers a position and its value.
    pub fn add_position(&mut self, value: i64, instrument: Pubkey)
        ensures
            final(self).instruments@ == old(self).instruments@.push(instrument),
            final(self).values@ == old(self).values@.push(value),
            final(self).user_account == old(self).user_account,
            final(self).status == old(self).status,
    {
        self.instruments.push(instrument);
        self.values.push(value);
    }
}

} // verus!
