//! Payoff-side parts of the pricing kernel: intrinsic value, Reg-T style
//! margin and the delta floor, on fixed-point integers.
use vstd::prelude::*;

use crate::constants::{DECIMAL_SCALE, DELTA_LIMIT};
use crate::errors::ErrorCode;

verus! {

/// The spot input of a batch evaluation: one spot, or a row of scenario spots.
pub enum SpotInputOption {
    /// A single spot price.
    SingleSpot(u64),
    /// Several spot prices, one per scenario.
    MultiSpots(Vec<u64>),
}

impl SpotInputOption {
    /// The scenario spots that this input stands for, in order.
    pub open spec fn spots(&self) -> Seq<u64> {
        match self {
            SpotInputOption::SingleSpot(s) => seq![*s],
            SpotInputOption::MultiSpots(v) => v@,
        }
    }

    /// The scenario spots as a vector.
    pub fn spot_list(&self) -> (r: Vec<u64>)
        ensures
            r@ == self.spots(),
    {
        match self {
            SpotInputOption::SingleSpot(s) => vec![*s],
            SpotInputOption::MultiSpots(v) => v.clone(),
        }
    }
}

/// Payoff of exercising now: `max(spot - strike, 0)` for a call,
/// `max(strike - spot, 0)` for a put.
pub open spec fn intrinsic_spec(spot: int, strike: int, is_call: bool) -> int {
    if is_call {
        if spot > strike { spot - strike } else { 0 }
    } else {
        if strike > spot { strike - spot } else { 0 }
    }
}

/// `stress * spot` at fixed-point scale, rounded down.
pub open spec fn stressed_notional(spot: int, stress: int) -> int {
    stress * spot / (DECIMAL_SCALE as int)
}

/// Reg-T style margin excluding premium: the stressed notional less the
/// out-of-the-money amount, but never under half the stressed notional.
pub open spec fn reg_t_spec(spot: int, strike: int, stress: int, is_call: bool) -> int {
    let ss = stressed_notional(spot, stress);
    let otm = if is_call {
        if strike > spot { strike - spot } else { 0 }
    } else {
        if spot > strike { spot - strike } else { 0 }
    };
    if ss - otm > ss / 2 { ss - otm } else { ss / 2 }
}

/// A delta with the floor applied: an absolute value under `DELTA_LIMIT` is
/// replaced by `DELTA_LIMIT` with the delta's sign, zero counting as positive.
pub open spec fn clipped_delta(d: int) -> int {
    if d >= 0 && d < DELTA_LIMIT as int {
        DELTA_LIMIT as int
    } else if d < 0 && -d < DELTA_LIMIT as int {
        -(DELTA_LIMIT as int)
    } else {
        d
    }
}

/// Whether every row of `m` has the given length and `m` has `rows` rows.
pub open spec fn is_matrix(m: Seq<Vec<u64>>, rows: int, cols: int) -> bool {
    &&& m.len() == rows
    &&& forall|i: int| 0 <= i < rows ==> #[trigger] m[i]@.len() == cols
}

/// Intrinsic value of one option at one spot.
pub fn intrinsic_value_single(spot: u64, strike: u64, is_call: bool) -> (r: u64)
    ensures
        r == intrinsic_spec(spot as int, strike as int, is_call),
{
    if is_call {
        if spot > strike { spot - strike } else { 0 }
    } else {
        if strike > spot { strike - spot } else { 0 }
    }
}

/// Intrinsic value of every option (rows, `is_call[i] == 1` for a call) at
/// every scenario spot (columns).
pub fn option_intrinsic_value(spots: &SpotInputOption, strikes: &Vec<u64>, is_call: &Vec<u8>) -> (r:
    Result<Vec<Vec<u64>>, ErrorCode>)
    ensures
        strikes.len() != is_call.len() <==> r == Err::<Vec<Vec<u64>>, ErrorCode>(
            ErrorCode::LengthMismatch,
        ),
        strikes.len() == is_call.len() <==> r is Ok,
        r is Ok ==> {
            let m = r->Ok_0@;
            &&& is_matrix(m, strikes.len() as int, spots.spots().len() as int)
            &&& forall|i: int, j: int|
                0 <= i < strikes.len() && 0 <= j < spots.spots().len() ==> #[trigger] m[i]@[j]
                    == intrinsic_spec(spots.spots()[j] as int, strikes@[i] as int, is_call@[i] == 1)
            &&& forall|i: int, j: int|
                0 <= i < strikes.len() && 0 <= j < spots.spots().len() ==> {
                    let v = #[trigger] m[i]@[j] as int;
                    let (spot, strike) = (spots.spots()[j] as int, strikes@[i] as int);
                    &&& v >= 0
                    &&& v >= if is_call@[i] == 1 { spot - strike } else { strike - spot }
                }
        },
{
    if strikes.len() != is_call.len() {
        return Err(ErrorCode::LengthMismatch);
    }
    let spot_row = spots.spot_list();
    let mut result: Vec<Vec<u64>> = Vec::new();
    let mut i: usize = 0;
    while i < strikes.len()
        invariant
            i <= strikes.len(),
            strikes.len() == is_call.len(),
            spot_row@ == spots.spots(),
            is_matrix(result@, i as int, spot_row@.len() as int),
            forall|a: int, j: int|
                0 <= a < i && 0 <= j < spot_row@.len() ==> #[trigger] result@[a]@[j]
                    == intrinsic_spec(spot_row@[j] as int, strikes@[a] as int, is_call@[a] == 1),
        decreases strikes.len() - i,
    {
        let call = is_call[i] == 1;
        let mut row: Vec<u64> = Vec::new();
        let mut j: usize = 0;
        while j < spot_row.len()
            invariant
                i < strikes.len(),
                j <= spot_row@.len(),
                row@.len() == j,
                call == (is_call@[i as int] == 1),
                forall|b: int|
                    0 <= b < j ==> #[trigger] row@[b] == intrinsic_spec(
                        spot_row@[b] as int,
                        strikes@[i as int] as int,
                        call,
                    ),
            decreases spot_row.len() - j,
        {
            row.push(intrinsic_value_single(spot_row[j], strikes[i], call));
            j += 1;
        }
        result.push(row);
        i += 1;
    }
    Ok(result)
}

/// `stress * spot` at fixed-point scale, rounded down, or `None` when it does
/// not fit in `u64`.
fn stressed_notional_of(spot: u64, stress: u64) -> (r: Option<u64>)
    ensures
        r is Some <==> stressed_notional(spot as int, stress as int) <= u64::MAX,
        r is Some ==> r->Some_0 == stressed_notional(spot as int, stress as int),
{
    assert((stress as int) * (spot as int) <= 0xffff_ffff_ffff_ffff * 0xffff_ffff_ffff_ffff) by (nonlinear_arith)
        requires
            stress <= 0xffff_ffff_ffff_ffffu64,
            spot <= 0xffff_ffff_ffff_ffffu64,
    ;
    let prod: u128 = (stress as u128) * (spot as u128);
    let ss = prod / (DECIMAL_SCALE as u128);
    if ss > u64::MAX as u128 {
        None
    } else {
        Some(ss as u64)
    }
}

/// Whether the stressed notional of every spot fits in `u64`.
pub open spec fn notionals_fit(spots: Seq<u64>, stress: int) -> bool {
    forall|j: int| 0 <= j < spots.len() ==> stressed_notional(#[trigger] spots[j] as int, stress) <= u64::MAX
}

/// Reg-T style margin of one option at one spot.
pub fn reg_t_margin_single(spot: u64, strike: u64, stress: u64, is_call: bool) -> (r: u64)
    requires
        stressed_notional(spot as int, stress as int) <= u64::MAX,
    ensures
        r == reg_t_spec(spot as int, strike as int, stress as int, is_call),
{
    let ss = stressed_notional_of(spot, stress).unwrap();
    let otm: u64 = if is_call {
        if strike > spot { strike - spot } else { 0 }
    } else {
        if spot > strike { spot - strike } else { 0 }
    };
    let half = ss / 2;
    if ss >= otm && ss - otm > half {
        ss - otm
    } else {
        half
    }
}

/// Reg-T style margin (excluding premium) of every option at every scenario
/// spot, for a stress fraction at fixed-point scale.
pub fn option_reg_t_margin(
    spots: &SpotInputOption,
    strikes: &Vec<u64>,
    stress: u64,
    is_call: &Vec<u8>,
) -> (r: Result<Vec<Vec<u64>>, ErrorCode>)
    ensures
        strikes.len() != is_call.len() <==> r == Err::<Vec<Vec<u64>>, ErrorCode>(
            ErrorCode::LengthMismatch,
        ),
        (strikes.len() == is_call.len() && !notionals_fit(spots.spots(), stress as int)) <==> r
            == Err::<Vec<Vec<u64>>, ErrorCode>(ErrorCode::Overflow),
        (strikes.len() == is_call.len() && notionals_fit(spots.spots(), stress as int)) <==> r is Ok,
        r is Ok ==> {
            let m = r->Ok_0@;
            &&& is_matrix(m, strikes.len() as int, spots.spots().len() as int)
            &&& forall|i: int, j: int|
                0 <= i < strikes.len() && 0 <= j < spots.spots().len() ==> #[trigger] m[i]@[j]
                    == reg_t_spec(
                    spots.spots()[j] as int,
                    strikes@[i] as int,
                    stress as int,
                    is_call@[i] == 1,
                )
        },
{
    if strikes.len() != is_call.len() {
        return Err(ErrorCode::LengthMismatch);
    }
    let spot_row = spots.spot_list();
    let mut k: usize = 0;
    while k < spot_row.len()
        invariant
            k <= spot_row@.len(),
            strikes.len() == is_call.len(),
            spot_row@ == spots.spots(),
            forall|j: int| 0 <= j < k ==> stressed_notional(#[trigger] spot_row@[j] as int, stress as int) <= u64::MAX,
        decreases spot_row@.len() - k,
    {
        if stressed_notional_of(spot_row[k], stress).is_none() {
            assert(!(stressed_notional(spot_row@[k as int] as int, stress as int) <= u64::MAX));
            return Err(ErrorCode::Overflow);
        }
        k += 1;
    }
    let mut result: Vec<Vec<u64>> = Vec::new();
    let mut i: usize = 0;
    while i < strikes.len()
        invariant
            i <= strikes.len(),
            strikes.len() == is_call.len(),
            notionals_fit(spot_row@, stress as int),
            spot_row@ == spots.spots(),
            is_matrix(result@, i as int, spot_row@.len() as int),
            forall|a: int, j: int|
                0 <= a < i && 0 <= j < spot_row@.len() ==> #[trigger] result@[a]@[j]
                    == reg_t_spec(
                    spot_row@[j] as int,
                    strikes@[a] as int,
                    stress as int,
                    is_call@[a] == 1,
                ),
        decreases strikes.len() - i,
    {
        let call = is_call[i] == 1;
        let mut row: Vec<u64> = Vec::new();
        let mut j: usize = 0;
        while j < spot_row.len()
            invariant
                i < strikes.len(),
                j <= spot_row@.len(),
                notionals_fit(spot_row@, stress as int),
                row@.len() == j,
                call == (is_call@[i as int] == 1),
                forall|b: int|
                    0 <= b < j ==> #[trigger] row@[b] == reg_t_spec(
                        spot_row@[b] as int,
                        strikes@[i as int] as int,
                        stress as int,
                        call,
                    ),
            decreases spot_row.len() - j,
        {
            row.push(reg_t_margin_single(spot_row[j], strikes[i], stress, call));
            j += 1;
        }
        result.push(row);
        i += 1;
    }
    Ok(result)
}

/// Applies the minimum-delta floor to every delta in place.
pub fn delta_clip(delta: &mut Vec<i64>)
    ensures
        final(delta)@.len() == old(delta)@.len(),
        forall|i: int|
            0 <= i < old(delta)@.len() ==> #[trigger] final(delta)@[i] as int == clipped_delta(
                old(delta)@[i] as int,
            ),
{
    let n = delta.len();
    let mut i: usize = 0;
    while i < n
        invariant
            n == old(delta)@.len(),
            delta@.len() == n,
            i <= n,
            forall|a: int| 0 <= a < i ==> #[trigger] delta@[a] as int == clipped_delta(old(delta)@[a] as int),
            forall|a: int| i <= a < n ==> #[trigger] delta@[a] == old(delta)@[a],
        decreases n - i,
    {
        let d = delta[i];
        if d >= 0 && d < DELTA_LIMIT {
            delta.set(i, DELTA_LIMIT);
        } else if d < 0 && d > -DELTA_LIMIT {
            delta.set(i, -DELTA_LIMIT);
        }
        i += 1;
    }
}

/// The intrinsic value of a call or a put is never negative, and it is the
/// positive part of the signed moneyness.
pub proof fn lemma_intrinsic_floor(spot: int, strike: int, is_call: bool)
    ensures
        intrinsic_spec(spot, strike, is_call) >= 0,
        intrinsic_spec(spot, strike, is_call) >= (if is_call { spot - strike } else { strike - spot }),
{
}

} // verus!
