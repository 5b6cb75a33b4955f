//! Reference prices read off an order book's resting prices.
use vstd::prelude::*;

verus! {

/// The largest of the first `n` prices (`n >= 1`).
pub open spec fn seq_max(p: Seq<u64>, n: int) -> int
    decreases n,
{
    if n <= 1 {
        p[0] as int
    } else if (p[n - 1] as int) > seq_max(p, n - 1) {
        p[n - 1] as int
    } else {
        seq_max(p, n - 1)
    }
}

/// The smallest of the first `n` prices (`n >= 1`).
pub open spec fn seq_min(p: Seq<u64>, n: int) -> int
    decreases n,
{
    if n <= 1 {
        p[0] as int
    } else if (p[n - 1] as int) < seq_min(p, n - 1) {
        p[n - 1] as int
    } else {
        seq_min(p, n - 1)
    }
}

/// The mid price: the best bid plus half the spread, no spread counting when
/// the book is crossed; rounded down.
pub open spec fn mid_price(best_bid: int, best_ask: int) -> int {
    let diff = if best_ask - best_bid < 0 { 0 } else { best_ask - best_bid };
    best_bid + diff / 2
}

/// The best (highest) bid.
pub fn max_bid(bids: &Vec<u64>) -> (r: u64)
    requires
        bids@.len() > 0,
    ensures
        r == seq_max(bids@, bids@.len() as int),
{
    let mut best = bids[0];
    let mut i: usize = 1;
    while i < bids.len()
        invariant
            1 <= i <= bids@.len(),
            best == seq_max(bids@, i as int),
        decreases bids@.len() - i,
    {
        if bids[i] > best {
            best = bids[i];
        }
        i += 1;
    }
    best
}

/// The best (lowest) ask.
pub fn min_ask(asks: &Vec<u64>) -> (r: u64)
    requires
        asks@.len() > 0,
    ensures
        r == seq_min(asks@, asks@.len() as int),
{
    let mut best = asks[0];
    let mut i: usize = 1;
    while i < asks.len()
        invariant
            1 <= i <= asks@.len(),
            best == seq_min(asks@, i as int),
        decreases asks@.len() - i,
    {
        if asks[i] < best {
            best = asks[i];
        }
        i += 1;
    }
    best
}

/// The book's mid price, as a spot estimate.
pub fn get_serum_spot_price(bids: &Vec<u64>, asks: &Vec<u64>) -> (r: u64)
    requires
        bids@.len() > 0,
        asks@.len() > 0,
    ensures
        r == mid_price(seq_max(bids@, bids@.len() as int), seq_min(asks@, asks@.len() as int)),
{
    let bid = max_bid(bids);
    let ask = min_ask(asks);
    let diff: u64 = if ask < bid { 0 } else { ask - bid };
    bid + diff / 2
}

} // verus!
