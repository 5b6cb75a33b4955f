//! The AMM quoting engine: its net delta and remaining capacity, its quote
//! ladders and their contract sizes, and the clean-up of those ladders.
use vstd::prelude::*;

use crate::constants::{DECIMAL_SCALE, DELTA_LIMIT, LEVEL_SPREAD, QUOTE_LEVELS};
use crate::errors::ErrorCode;
use crate::margin::abs;
use crate::orders::OrderSide;
use crate::pricing::clipped_delta;

verus! {

/// The sizes of the levels whose size is not zero, in order.
pub open spec fn kept_sizes(sizes: Seq<u64>, n: int) -> Seq<u64>
    decreases n,
{
    if n <= 0 {
        seq![]
    } else if sizes[n - 1] != 0 {
        kept_sizes(sizes, n - 1).push(sizes[n - 1])
    } else {
        kept_sizes(sizes, n - 1)
    }
}

/// The prices of the levels whose size is not zero, in order.
pub open spec fn kept_prices(sizes: Seq<u64>, prices: Seq<u64>, n: int) -> Seq<u64>
    decreases n,
{
    if n <= 0 {
        seq![]
    } else if sizes[n - 1] != 0 {
        kept_prices(sizes, prices, n - 1).push(prices[n - 1])
    } else {
        kept_prices(sizes, prices, n - 1)
    }
}

/// Prices from high to low, as an ask ladder is laid out.
pub open spec fn non_increasing(p: Seq<u64>) -> bool {
    forall|i: int, j: int| 0 <= i <= j < p.len() ==> p[i] >= p[j]
}

/// Prices from low to high, as a bid ladder is laid out.
pub open spec fn non_decreasing(p: Seq<u64>) -> bool {
    forall|i: int, j: int| 0 <= i <= j < p.len() ==> p[i] <= p[j]
}

/// Removes every level of zero size from a quote ladder, keeping the order of
/// the others. The prices must already be sorted, high to low for asks or low
/// to high for bids; that order holds afterwards too.
pub fn clip_order_levels(sizes: &mut Vec<u64>, prices: &mut Vec<u64>)
    requires
        old(sizes)@.len() == old(prices)@.len(),
        non_increasing(old(prices)@) || non_decreasing(old(prices)@),
    ensures
        final(sizes)@ == kept_sizes(old(sizes)@, old(sizes)@.len() as int),
        final(prices)@ == kept_prices(old(sizes)@, old(prices)@, old(sizes)@.len() as int),
        final(sizes)@.len() == final(prices)@.len(),
        forall|i: int| 0 <= i < final(sizes)@.len() ==> #[trigger] final(sizes)@[i] != 0,
        non_increasing(old(prices)@) ==> non_increasing(final(prices)@),
        non_decreasing(old(prices)@) ==> non_decreasing(final(prices)@),
{
    let n = sizes.len();
    let ghost sizes_in = sizes@;
    let ghost prices_in = prices@;
    let mut out_sizes: Vec<u64> = Vec::new();
    let mut out_prices: Vec<u64> = Vec::new();
    let ghost mut last: int = -1;
    let mut i: usize = 0;
    while i < n
        invariant
            n == sizes_in.len(),
            n == prices_in.len(),
            sizes@ == sizes_in,
            prices@ == prices_in,
            i <= n,
            out_sizes@ == kept_sizes(sizes_in, i as int),
            out_prices@ == kept_prices(sizes_in, prices_in, i as int),
            out_sizes@.len() == out_prices@.len(),
            forall|a: int| 0 <= a < out_sizes@.len() ==> #[trigger] out_sizes@[a] != 0,
            -1 <= last < i,
            out_prices@.len() == 0 <==> last == -1,
            out_prices@.len() > 0 ==> out_prices@.last() == prices_in[last],
            non_increasing(prices_in) ==> non_increasing(out_prices@),
            non_decreasing(prices_in) ==> non_decreasing(out_prices@),
        decreases n - i,
    {
        if sizes[i] != 0 {
            let ghost before = out_prices@;
            out_sizes.push(sizes[i]);
            out_prices.push(prices[i]);
            proof {
                if non_increasing(prices_in) {
                    assert forall|a: int, b: int|
                        0 <= a <= b < out_prices@.len() implies out_prices@[a] >= out_prices@[b] by {
                        if b == out_prices@.len() - 1 && a < b {
                            assert(before[a] >= before.last());
                        }
                    }
                }
                if non_decreasing(prices_in) {
                    assert forall|a: int, b: int|
                        0 <= a <= b < out_prices@.len() implies out_prices@[a] <= out_prices@[b] by {
                        if b == out_prices@.len() - 1 && a < b {
                            assert(before[a] <= before.last());
                        }
                    }
                }
                last = i as int;
            }
        }
        i += 1;
    }
    *sizes = out_sizes;
    *prices = out_prices;
}

/// The AMM's net delta: each option position weighted by its delta, plus the
/// futures position, in underlying units at fixed-point scale.
pub open spec fn net_delta_of(delta: Seq<i64>, position: Seq<i64>, n: int) -> int
    decreases n,
{
    if n <= 0 {
        0
    } else {
        net_delta_of(delta, position, n - 1) + delta[n - 1] * position[n - 1]
    }
}

/// Remaining quoting capacity in underlying units at fixed-point scale: the
/// quote balance converted at the spot, less the absolute net delta already
/// carried, and never below zero.
pub open spec fn liquidity_of(usdc_balance: int, net_delta: int, spot: int) -> int {
    let cap = usdc_balance * (DECIMAL_SCALE as int) / spot - abs(net_delta);
    if cap > 0 { cap } else { 0 }
}

/// The AMM's net delta and capacity for the given inventory.
pub open spec fn amm_liquidity_spec(
    delta: Seq<i64>,
    position: Seq<i64>,
    futures_position: int,
    usdc_balance: int,
    spot: int,
) -> (int, int) {
    let nd = net_delta_of(delta, position, position.len() as int) + futures_position;
    (nd, liquidity_of(usdc_balance, nd, spot))
}

/// With the same balance and spot, more imbalance never leaves more capacity.
pub proof fn lemma_liquidity_decreases_with_imbalance(usdc_balance: int, d1: int, d2: int, spot: int)
    requires
        spot > 0,
        abs(d1) <= abs(d2),
    ensures
        liquidity_of(usdc_balance, d2, spot) <= liquidity_of(usdc_balance, d1, spot),
{
}

/// Two inventories measured with the same balance and spot: the one with the
/// larger absolute net delta has no more capacity.
pub proof fn lemma_capacity_shrinks_with_exposure(
    delta1: Seq<i64>,
    position1: Seq<i64>,
    futures1: int,
    delta2: Seq<i64>,
    position2: Seq<i64>,
    futures2: int,
    usdc_balance: int,
    spot: int,
)
    requires
        spot > 0,
        abs(amm_liquidity_spec(delta1, position1, futures1, usdc_balance, spot).0) <= abs(
            amm_liquidity_spec(delta2, position2, futures2, usdc_balance, spot).0,
        ),
    ensures
        amm_liquidity_spec(delta2, position2, futures2, usdc_balance, spot).1 <= amm_liquidity_spec(
            delta1,
            position1,
            futures1,
            usdc_balance,
            spot,
        ).1,
{
}

/// A larger quote balance never lowers the capacity, and leaves the net delta
/// as it is.
pub proof fn lemma_liquidity_increases_with_balance(
    delta: Seq<i64>,
    position: Seq<i64>,
    futures_position: int,
    b1: int,
    b2: int,
    spot: int,
)
    requires
        spot > 0,
        b1 <= b2,
    ensures
        amm_liquidity_spec(delta, position, futures_position, b1, spot).1 <= amm_liquidity_spec(
            delta,
            position,
            futures_position,
            b2,
            spot,
        ).1,
        amm_liquidity_spec(delta, position, futures_position, b1, spot).0 == amm_liquidity_spec(
            delta,
            position,
            futures_position,
            b2,
            spot,
        ).0,
{
    assert(b1 * (DECIMAL_SCALE as int) <= b2 * (DECIMAL_SCALE as int)) by (nonlinear_arith)
        requires
            b1 <= b2,
    ;
    vstd::arithmetic::div_mod::lemma_div_is_ordered(
        b1 * (DECIMAL_SCALE as int),
        b2 * (DECIMAL_SCALE as int),
        spot,
    );
}

/// The sum of `|delta[i] * position[i]|`: a bound on every partial net delta.
pub open spec fn delta_abs(delta: Seq<i64>, position: Seq<i64>, n: int) -> int
    decreases n,
{
    if n <= 0 {
        0
    } else {
        delta_abs(delta, position, n - 1) + abs(delta[n - 1] as int) * abs(position[n - 1] as int)
    }
}

/// Whether the sums that `total_amm_liquidity` forms, and its results, fit
/// their integer types.
pub open spec fn amm_in_range(
    delta: Seq<i64>,
    position: Seq<i64>,
    futures_position: int,
    usdc_balance: int,
    spot: int,
) -> bool {
    let (nd, liq) = amm_liquidity_spec(delta, position, futures_position, usdc_balance, spot);
    &&& delta_abs(delta, position, position.len() as int) <= i64::MAX
    &&& i64::MIN <= nd <= i64::MAX
    &&& liq <= u64::MAX
}

proof fn lemma_sums_bounded(delta: Seq<i64>, position: Seq<i64>, a: int, b: int)
    requires
        0 <= a <= b,
    ensures
        abs(net_delta_of(delta, position, a)) <= delta_abs(delta, position, a),
        delta_abs(delta, position, a) <= delta_abs(delta, position, b),
    decreases b,
{
    if b > 0 {
        if a == b {
            lemma_sums_bounded(delta, position, a - 1, b - 1);
            let d = delta[a - 1] as int;
            let p = position[a - 1] as int;
            assert(abs(d * p) == abs(d) * abs(p)) by (nonlinear_arith);
            assert(abs(d) * abs(p) >= 0) by (nonlinear_arith);
        } else {
            lemma_sums_bounded(delta, position, a, b - 1);
            let d = delta[b - 1] as int;
            let p = position[b - 1] as int;
            assert(abs(d) * abs(p) >= 0) by (nonlinear_arith);
        }
    }
}

/// The AMM's net delta and remaining capacity. `delta` and `amm_position`
/// give, per option, its delta and the AMM's position; `futures_position` is
/// the hedge in underlying units, `usdc_balance` the quote balance and
/// `spot_price` the spot, all at fixed-point scale. The capacity is the
/// balance converted at the spot less the absolute net delta: it shrinks as
/// the imbalance grows and grows with the balance.
pub fn total_amm_liquidity(
    delta: &Vec<i64>,
    amm_position: &Vec<i64>,
    futures_position: i64,
    usdc_balance: u64,
    spot_price: u64,
) -> (r: Result<(i64, u64), ErrorCode>)
    requires
        spot_price > 0,
    ensures
        ({
            let agree = delta.len() == amm_position.len();
            let in_range = amm_in_range(
                delta@,
                amm_position@,
                futures_position as int,
                usdc_balance as int,
                spot_price as int,
            );
            &&& !agree <==> r == Err::<(i64, u64), ErrorCode>(ErrorCode::LengthMismatch)
            &&& (agree && !in_range) <==> r == Err::<(i64, u64), ErrorCode>(ErrorCode::Overflow)
            &&& (agree && in_range) <==> r is Ok
        }),
        r is Ok ==> ({
            let (nd, liq) = amm_liquidity_spec(
                delta@,
                amm_position@,
                futures_position as int,
                usdc_balance as int,
                spot_price as int,
            );
            &&& r->Ok_0.0 == nd
            &&& r->Ok_0.1 == liq
        }),
{
    let n = amm_position.len();
    if delta.len() != n {
        return Err(ErrorCode::LengthMismatch);
    }
    let ghost dl = delta@;
    let ghost ps = amm_position@;
    let mut nd: i128 = 0;
    let mut nd_abs: i128 = 0;
    let mut i: usize = 0;
    while i < n
        invariant
            n == ps.len(),
            n == dl.len(),
            dl == delta@,
            ps == amm_position@,
            i <= n,
            nd == net_delta_of(dl, ps, i as int),
            nd_abs == delta_abs(dl, ps, i as int),
            nd_abs <= i64::MAX,
        decreases n - i,
    {
        let d = delta[i] as i128;
        let p = amm_position[i] as i128;
        let ad: i128 = if d >= 0 { d } else { -d };
        let ap: i128 = if p >= 0 { p } else { -p };
        assert(0 <= ad * ap <= 0x4000_0000_0000_0000_0000_0000_0000_0000) by (nonlinear_arith)
            requires
                0 <= ad <= 0x8000_0000_0000_0000,
                0 <= ap <= 0x8000_0000_0000_0000,
        ;
        nd_abs = nd_abs + ad * ap;
        proof {
            lemma_sums_bounded(dl, ps, i as int + 1, i as int + 1);
        }
        if nd_abs > i64::MAX as i128 {
            proof {
                lemma_sums_bounded(dl, ps, i as int + 1, n as int);
            }
            return Err(ErrorCode::Overflow);
        }
        assert(abs(d * p) == ad * ap) by (nonlinear_arith)
            requires
                ad == abs(d as int),
                ap == abs(p as int),
        ;
        nd = nd + d * p;
        i += 1;
    }
    proof {
        lemma_sums_bounded(dl, ps, n as int, n as int);
    }
    let nd_total: i128 = nd + futures_position as i128;
    if nd_total < i64::MIN as i128 || nd_total > i64::MAX as i128 {
        return Err(ErrorCode::Overflow);
    }
    assert((usdc_balance as int) * 1_000_000 <= 0x1_0000_0000_0000_0000 * 1_000_000) by (nonlinear_arith)
        requires
            usdc_balance <= 0xffff_ffff_ffff_ffff,
    ;
    let converted: i128 = (usdc_balance as i128) * (DECIMAL_SCALE as i128) / (spot_price as i128);
    let a: i128 = if nd_total >= 0 { nd_total } else { -nd_total };
    let cap: i128 = converted - a;
    let liquidity: i128 = if cap > 0 { cap } else { 0 };
    if liquidity > u64::MAX as i128 {
        return Err(ErrorCode::Overflow);
    }
    Ok((nd_total as i64, liquidity as u64))
}

/// Whether quoting on `side` would push the AMM's net delta further from zero:
/// buying when it is already long, selling when it is already short.
pub open spec fn worsens(side: OrderSide, net_delta: int) -> bool {
    (side == OrderSide::Bid && net_delta > 0) || (side == OrderSide::Ask && net_delta < 0)
}

/// The delta the AMM may take on through one side: the side that would
/// worsen the imbalance gets the capacity less the absolute net delta (never
/// below zero), the other side the whole capacity.
pub open spec fn side_capacity(side: OrderSide, net_delta: int, liquidity: int) -> int {
    if worsens(side, net_delta) {
        if liquidity > abs(net_delta) { liquidity - abs(net_delta) } else { 0 }
    } else {
        liquidity
    }
}

/// Size of level `k` of a ladder: `quote_size` while the capacity lasts, then
/// what is left of it, then nothing.
pub open spec fn ladder_size(capacity: int, quote_size: int, k: int) -> int {
    let left = capacity - k * quote_size;
    if left <= 0 {
        0
    } else if left < quote_size {
        left
    } else {
        quote_size
    }
}

/// Price distance of level `k` from the spot: `(k + 1) * LEVEL_SPREAD` of it,
/// rounded down.
pub open spec fn ladder_offset(spot: int, k: int) -> int {
    spot * ((k + 1) * LEVEL_SPREAD as int) / (DECIMAL_SCALE as int)
}

/// The sum of the first `n` ladder sizes.
pub open spec fn ladder_total(capacity: int, quote_size: int, n: int) -> int
    decreases n,
{
    if n <= 0 {
        0
    } else {
        ladder_total(capacity, quote_size, n - 1) + ladder_size(capacity, quote_size, n - 1)
    }
}

/// The first `n` levels of a ladder hold `min(capacity, n * quote_size)` in
/// all, so never more than the capacity.
pub proof fn lemma_ladder_within_capacity(capacity: int, quote_size: int, n: int)
    requires
        capacity >= 0,
        quote_size >= 0,
        n >= 0,
    ensures
        ladder_total(capacity, quote_size, n) == if capacity < n * quote_size {
            capacity
        } else {
            n * quote_size
        },
        ladder_total(capacity, quote_size, n) <= capacity,
    decreases n,
{
    if n > 0 {
        lemma_ladder_within_capacity(capacity, quote_size, n - 1);
        let a = (n - 1) * quote_size;
        assert(n * quote_size == a + quote_size) by (nonlinear_arith)
            requires
                a == (n - 1) * quote_size,
        ;
        assert(a >= 0) by (nonlinear_arith)
            requires
                n >= 1,
                quote_size >= 0,
                a == (n - 1) * quote_size,
        ;
        assert(ladder_size(capacity, quote_size, n - 1) == if capacity - a <= 0 {
            0
        } else if capacity - a < quote_size {
            capacity - a
        } else {
            quote_size
        });
    } else {
        assert(n * quote_size == 0) by (nonlinear_arith)
            requires
                n == 0,
        ;
    }
}

/// The side that would worsen the AMM's imbalance is never offered more, level
/// by level, than the side that would reduce it.
pub proof fn lemma_inventory_skew(net_delta: int, liquidity: int, quote_size: int, k: int)
    requires
        net_delta != 0,
        liquidity >= 0,
        quote_size >= 0,
        k >= 0,
    ensures
        ({
            let (worse, better) = if net_delta > 0 {
                (OrderSide::Bid, OrderSide::Ask)
            } else {
                (OrderSide::Ask, OrderSide::Bid)
            };
            ladder_size(side_capacity(worse, net_delta, liquidity), quote_size, k) <= ladder_size(
                side_capacity(better, net_delta, liquidity),
                quote_size,
                k,
            )
        }),
{
}

/// Neither side is offered more than the capacity in all, and with no
/// capacity left every level of either side is empty.
pub proof fn lemma_ladder_within_liquidity(side: OrderSide, net_delta: int, liquidity: int, quote_size: int)
    requires
        liquidity >= 0,
        quote_size >= 0,
    ensures
        0 <= side_capacity(side, net_delta, liquidity) <= liquidity,
        ladder_total(side_capacity(side, net_delta, liquidity), quote_size, QUOTE_LEVELS as int)
            <= liquidity,
        liquidity == 0 ==> forall|k: int|
            0 <= k ==> #[trigger] ladder_size(side_capacity(side, net_delta, liquidity), quote_size, k)
                == 0,
{
    lemma_ladder_within_capacity(side_capacity(side, net_delta, liquidity), quote_size, QUOTE_LEVELS as int);
    if liquidity == 0 {
        assert forall|k: int| 0 <= k implies #[trigger] ladder_size(
            side_capacity(side, net_delta, liquidity),
            quote_size,
            k,
        ) == 0 by {
            assert(k * quote_size >= 0) by (nonlinear_arith)
                requires
                    k >= 0,
                    quote_size >= 0,
            ;
        }
    }
}

/// The AMM's quote ladder for one side: `QUOTE_LEVELS` price offsets from the
/// spot, widening by `LEVEL_SPREAD` of the spot per level, and the delta size
/// offered at each. Each level offers `quote_size` until the side's capacity
/// runs out, so the side never offers more than `amm_liquidity` in all; the
/// side that would worsen the net delta has that capacity less the absolute
/// net delta.
pub fn calculate_amm_quote_price(
    spot_price: u64,
    side: OrderSide,
    net_delta: i64,
    amm_liquidity: u64,
    quote_size: u64,
) -> (r: (Vec<u64>, Vec<u64>))
    ensures
        r.0@.len() == QUOTE_LEVELS,
        r.1@.len() == QUOTE_LEVELS,
        forall|k: int|
            0 <= k < QUOTE_LEVELS ==> #[trigger] r.0@[k] == ladder_offset(spot_price as int, k),
        forall|k: int|
            0 <= k < QUOTE_LEVELS ==> #[trigger] r.1@[k] == ladder_size(
                side_capacity(side, net_delta as int, amm_liquidity as int),
                quote_size as int,
                k,
            ),
{
    let nd = net_delta as i128;
    let worse = match side {
        OrderSide::Bid => nd > 0,
        OrderSide::Ask => nd < 0,
    };
    let a: i128 = if nd >= 0 { nd } else { -nd };
    let capacity: i128 = if worse {
        if amm_liquidity as i128 > a { amm_liquidity as i128 - a } else { 0 }
    } else {
        amm_liquidity as i128
    };
    let ghost cap = side_capacity(side, net_delta as int, amm_liquidity as int);
    assert(capacity == cap);
    let mut offsets: Vec<u64> = Vec::new();
    let mut sizes: Vec<u64> = Vec::new();
    let mut k: usize = 0;
    while k < QUOTE_LEVELS
        invariant
            k <= QUOTE_LEVELS,
            capacity == cap,
            0 <= cap <= u64::MAX as int + 0x8000_0000_0000_0000,
            offsets@.len() == k,
            sizes@.len() == k,
            forall|j: int| 0 <= j < k ==> #[trigger] offsets@[j] == ladder_offset(spot_price as int, j),
            forall|j: int|
                0 <= j < k ==> #[trigger] sizes@[j] == ladder_size(cap, quote_size as int, j),
        decreases QUOTE_LEVELS - k,
    {
        assert(((k as int) + 1) * 5_000 <= 25_000) by (nonlinear_arith)
            requires
                k < 5,
        ;
        let spread: u128 = ((k as u128) + 1) * (LEVEL_SPREAD as u128);
        assert((spot_price as int) * spread <= 0xffff_ffff_ffff_ffff * 1_000_000) by (nonlinear_arith)
            requires
                spread <= 1_000_000,
                spot_price <= 0xffff_ffff_ffff_ffff,
        ;
        let offset: u128 = (spot_price as u128) * spread / (DECIMAL_SCALE as u128);
        assert(offset <= spot_price) by (nonlinear_arith)
            requires
                offset == (spot_price as int) * spread / 1_000_000,
                spread <= 1_000_000,
        ;
        offsets.push(offset as u64);
        assert((k as int) * (quote_size as int) <= 0x10 * 0xffff_ffff_ffff_ffff) by (nonlinear_arith)
            requires
                k < 16,
                quote_size <= 0xffff_ffff_ffff_ffff,
        ;
        let left: i128 = capacity - (k as i128) * (quote_size as i128);
        let size: u64 = if left <= 0 {
            0
        } else if left < quote_size as i128 {
            left as u64
        } else {
            quote_size
        };
        sizes.push(size);
        k += 1;
    }
    (offsets, sizes)
}

/// The delta allotted to the first `k` levels of a ladder: each level takes
/// its delta size while the budget `quote_size` lasts, then what is left of
/// it, then nothing.
pub open spec fn allotted_before(sizes: Seq<u64>, quote_size: int, k: int) -> int
    decreases k,
{
    if k <= 0 {
        0
    } else {
        let used = allotted_before(sizes, quote_size, k - 1);
        used + allotment_after(sizes[k - 1] as int, quote_size - used)
    }
}

/// What a level of delta size `size` takes from a budget with `left` remaining.
pub open spec fn allotment_after(size: int, left: int) -> int {
    if size < left {
        size
    } else if left > 0 {
        left
    } else {
        0
    }
}

/// The delta allotted to level `k`.
pub open spec fn allotment(sizes: Seq<u64>, quote_size: int, k: int) -> int {
    allotment_after(sizes[k] as int, quote_size - allotted_before(sizes, quote_size, k))
}

/// The contracts of level `k`: its allotted delta divided by the option's
/// delta (by magnitude, floored at `DELTA_LIMIT`), rounded down.
pub open spec fn level_contracts(sizes: Seq<u64>, delta: int, quote_size: int, k: int) -> int {
    allotment(sizes, quote_size, k) * (DECIMAL_SCALE as int) / abs(clipped_delta(delta))
}

/// The delta carried by the first `n` levels' contracts.
pub open spec fn contracts_delta(sizes: Seq<u64>, delta: int, quote_size: int, n: int) -> int
    decreases n,
{
    if n <= 0 {
        0
    } else {
        contracts_delta(sizes, delta, quote_size, n - 1) + level_contracts(sizes, delta, quote_size, n - 1)
            * abs(clipped_delta(delta))
    }
}

proof fn lemma_allotted_bounds(sizes: Seq<u64>, quote_size: int, k: int)
    requires
        quote_size >= 0,
        k >= 0,
    ensures
        0 <= allotted_before(sizes, quote_size, k) <= quote_size,
    decreases k,
{
    if k > 0 {
        lemma_allotted_bounds(sizes, quote_size, k - 1);
    }
}

/// The contracts of a ladder carry, in all, no more delta than the budget
/// `quote_size` (both at fixed-point scale).
pub proof fn lemma_contracts_within_budget(sizes: Seq<u64>, delta: int, quote_size: int, n: int)
    requires
        quote_size >= 0,
        n >= 0,
    ensures
        0 <= contracts_delta(sizes, delta, quote_size, n) <= allotted_before(sizes, quote_size, n)
            * (DECIMAL_SCALE as int),
        contracts_delta(sizes, delta, quote_size, n) <= quote_size * (DECIMAL_SCALE as int),
    decreases n,
{
    lemma_allotted_bounds(sizes, quote_size, n);
    assert(allotted_before(sizes, quote_size, n) * (DECIMAL_SCALE as int) <= quote_size * (
    DECIMAL_SCALE as int)) by (nonlinear_arith)
        requires
            allotted_before(sizes, quote_size, n) <= quote_size,
    ;
    if n > 0 {
        lemma_contracts_within_budget(sizes, delta, quote_size, n - 1);
        lemma_allotted_bounds(sizes, quote_size, n - 1);
        let d = abs(clipped_delta(delta));
        let a = allotment(sizes, quote_size, n - 1);
        assert(d >= DELTA_LIMIT);
        assert(a >= 0);
        let c = a * (DECIMAL_SCALE as int) / d;
        assert(0 <= c * d <= a * (DECIMAL_SCALE as int)) by (nonlinear_arith)
            requires
                c == a * 1_000_000 / d,
                a >= 0,
                d > 0,
        ;
        assert(allotted_before(sizes, quote_size, n) == allotted_before(sizes, quote_size, n - 1) + a);
        let p = allotted_before(sizes, quote_size, n - 1);
        assert((p + a) * (DECIMAL_SCALE as int) == p * (DECIMAL_SCALE as int) + a * (DECIMAL_SCALE as int))
            by (nonlinear_arith);
    }
}

/// Whether a delta budget, converted to contracts at the smallest delta the
/// floor allows, fits in `u64`.
pub open spec fn budget_fits(quote_size: int) -> bool {
    quote_size * (DECIMAL_SCALE as int) <= u64::MAX as int * (DELTA_LIMIT as int)
}

/// Contract sizes of a ladder for an option of the given delta. The ladder's
/// delta sizes are filled in order from the budget `quote_size`, so the
/// contracts carry no more delta than the budget in all; each level's
/// allotment is converted to contracts at the option's delta.
pub fn calculate_amm_size_v2(btc_delta_size_2ask: &Vec<u64>, delta: i64, quote_size: u64) -> (r: Vec<u64>)
    requires
        budget_fits(quote_size as int),
    ensures
        r@.len() == btc_delta_size_2ask@.len(),
        forall|k: int|
            0 <= k < r@.len() ==> #[trigger] r@[k] == level_contracts(
                btc_delta_size_2ask@,
                delta as int,
                quote_size as int,
                k,
            ),
        contracts_delta(btc_delta_size_2ask@, delta as int, quote_size as int, r@.len() as int)
            <= quote_size * (DECIMAL_SCALE as int),
{
    let mut d = vec![delta];
    crate::pricing::delta_clip(&mut d);
    let c = d[0] as i128;
    let mag: u128 = (if c >= 0 { c } else { -c }) as u128;
    assert(mag >= DELTA_LIMIT);
    let ghost sizes = btc_delta_size_2ask@;
    let ghost q = quote_size as int;
    let mut used: u128 = 0;
    let mut out: Vec<u64> = Vec::new();
    let mut k: usize = 0;
    while k < btc_delta_size_2ask.len()
        invariant
            budget_fits(quote_size as int),
            sizes == btc_delta_size_2ask@,
            q == quote_size as int,
            k <= sizes.len(),
            mag == abs(clipped_delta(delta as int)),
            mag >= DELTA_LIMIT,
            used == allotted_before(sizes, q, k as int),
            used <= quote_size,
            out@.len() == k,
            forall|j: int|
                0 <= j < k ==> #[trigger] out@[j] == level_contracts(sizes, delta as int, q, j),
        decreases sizes.len() - k,
    {
        let size = btc_delta_size_2ask[k] as u128;
        let left: u128 = quote_size as u128 - used;
        let allot: u128 = if size < left { size } else { left };
        assert(allot == allotment(sizes, q, k as int));
        assert(allot * 1_000_000 <= 0xffff_ffff_ffff_ffff * 1_000_000) by (nonlinear_arith)
            requires
                allot <= 0xffff_ffff_ffff_ffff,
        ;
        let n: u128 = allot * (DECIMAL_SCALE as u128) / mag;
        assert(n <= allot * 1_000_000) by (nonlinear_arith)
            requires
                n == (allot as int) * 1_000_000 / (mag as int),
                mag >= 1,
        ;
        assert(n <= 0xffff_ffff_ffff_ffff) by (nonlinear_arith)
            requires
                n == (allot as int) * 1_000_000 / (mag as int),
                mag >= 50_000,
                allot <= quote_size,
                (quote_size as int) * 1_000_000 <= 0xffff_ffff_ffff_ffff * 50_000,
        ;
        out.push(n as u64);
        used = used + allot;
        k += 1;
    }
    proof {
        lemma_contracts_within_budget(sizes, delta as int, q, sizes.len() as int);
    }
    out
}

/// Contract sizes of a ladder for each option in `cdelta_btc_raw`, one row per
/// option, each row within the budget `quote_size`.
pub fn calculate_amm_size(btc_delta_size_2ask: &Vec<u64>, cdelta_btc_raw: &Vec<i64>, quote_size: u64) -> (r:
    Vec<Vec<u64>>)
    requires
        budget_fits(quote_size as int),
    ensures
        r@.len() == cdelta_btc_raw@.len(),
        forall|i: int|
            0 <= i < r@.len() ==> (#[trigger] r@[i])@.len() == btc_delta_size_2ask@.len(),
        forall|i: int, k: int|
            0 <= i < r@.len() && 0 <= k < btc_delta_size_2ask@.len() ==> #[trigger] r@[i]@[k]
                == level_contracts(btc_delta_size_2ask@, cdelta_btc_raw@[i] as int, quote_size as int, k),
{
    let mut out: Vec<Vec<u64>> = Vec::new();
    let mut i: usize = 0;
    while i < cdelta_btc_raw.len()
        invariant
            budget_fits(quote_size as int),
            i <= cdelta_btc_raw@.len(),
            out@.len() == i,
            forall|a: int| 0 <= a < i ==> (#[trigger] out@[a])@.len() == btc_delta_size_2ask@.len(),
            forall|a: int, k: int|
                0 <= a < i && 0 <= k < btc_delta_size_2ask@.len() ==> #[trigger] out@[a]@[k]
                    == level_contracts(btc_delta_size_2ask@, cdelta_btc_raw@[a] as int, quote_size as int, k),
        decreases cdelta_btc_raw@.len() - i,
    {
        out.push(calculate_amm_size_v2(btc_delta_size_2ask, cdelta_btc_raw[i], quote_size));
        i += 1;
    }
    out
}

} // verus!
