//! Stress scenarios: the stressed spots, and the per-instrument price changes
//! interpolated between the two extreme scenarios.
use vstd::prelude::*;

use crate::constants::DECIMAL_SCALE;
use crate::errors::ErrorCode;
use crate::pricing::{intrinsic_spec, intrinsic_value_single};

verus! {

/// Integer division rounding toward zero, for a positive divisor.
pub open spec fn trunc_div(a: int, b: int) -> int {
    if a >= 0 {
        a / b
    } else {
        -((-a) / b)
    }
}

/// Scenario `i` of the legacy generator: `spot * (1 - stress + stress * i / step)`,
/// rounded down.
pub open spec fn scenario_spot(spot: int, stress: int, step: int, i: int) -> int {
    let s = DECIMAL_SCALE as int;
    spot * (s * step - stress * step + stress * i) / (s * step)
}

/// The spot after a downward stress: `spot * (1 - stress)`, rounded down.
pub open spec fn stress_down(spot: int, stress: int) -> int {
    spot * (DECIMAL_SCALE as int - stress) / (DECIMAL_SCALE as int)
}

/// The spot after an upward stress: `spot * (1 + stress)`, rounded down.
pub open spec fn stress_up(spot: int, stress: int) -> int {
    spot * (DECIMAL_SCALE as int + stress) / (DECIMAL_SCALE as int)
}

/// Offset of slot `i` from the nearer extreme: `i * (up - down) / (2 * step)`.
pub open spec fn interp_offset(down: int, up: int, step: int, i: int) -> int {
    trunc_div(i * (up - down), 2 * step)
}

/// Slot `a` of the `2 * step` interpolated price changes: slots below `step`
/// are filled upward from `down`, the others downward from `up`.
pub open spec fn interpolated_slot(down: int, up: int, step: int, a: int) -> int {
    if a < step {
        down + interp_offset(down, up, step, a)
    } else {
        up - interp_offset(down, up, step, 2 * step - 1 - a)
    }
}

/// Per-instrument output of the stress computation.
pub struct StressFunctionResult {
    /// Base-case option price of each instrument.
    pub price: Vec<u64>,
    /// Intrinsic value of each instrument at the base spot.
    pub intrinsic_value: Vec<u64>,
    /// For each instrument, the `2 * step` interpolated price changes.
    pub stress_price_delta: Vec<Vec<i64>>,
}

proof fn lemma_scenario_bounds(spot: int, stress: int, step: int, i: int)
    requires
        0 <= spot,
        0 <= stress <= DECIMAL_SCALE as int,
        0 < step,
        0 <= i <= 2 * step,
    ensures
        0 <= scenario_spot(spot, stress, step, i) <= 2 * spot,
{
    let s = DECIMAL_SCALE as int;
    let num = s * step - stress * step + stress * i;
    assert(0 <= num <= 2 * (s * step)) by (nonlinear_arith)
        requires
            num == s * step - stress * step + stress * i,
            0 <= stress <= s,
            0 < step,
            0 <= i <= 2 * step,
    ;
    assert(0 <= spot * num <= (2 * spot) * (s * step)) by (nonlinear_arith)
        requires
            0 <= num <= 2 * (s * step),
            0 <= spot,
    ;
    assert(s * step > 0) by (nonlinear_arith)
        requires
            s > 0,
            step > 0,
    ;
    vstd::arithmetic::div_mod::lemma_div_is_ordered(spot * num, (2 * spot) * (s * step), s * step);
    vstd::arithmetic::div_mod::lemma_div_by_multiple(2 * spot, s * step);
    vstd::arithmetic::div_mod::lemma_div_pos_is_pos(spot * num, s * step);
}

proof fn lemma_scenario_monotone(spot: int, stress: int, step: int, i: int, j: int)
    requires
        0 <= spot,
        0 <= stress <= DECIMAL_SCALE as int,
        0 < step,
        0 <= i <= j,
    ensures
        scenario_spot(spot, stress, step, i) <= scenario_spot(spot, stress, step, j),
{
    let s = DECIMAL_SCALE as int;
    let ni = s * step - stress * step + stress * i;
    let nj = s * step - stress * step + stress * j;
    assert(spot * ni <= spot * nj) by (nonlinear_arith)
        requires
            ni == s * step - stress * step + stress * i,
            nj == s * step - stress * step + stress * j,
            0 <= stress,
            i <= j,
            0 <= spot,
    ;
    assert(s * step > 0) by (nonlinear_arith)
        requires
            s > 0,
            step > 0,
    ;
    vstd::arithmetic::div_mod::lemma_div_is_ordered(spot * ni, spot * nj, s * step);
}

proof fn lemma_scenario_strict(spot: int, stress: int, step: int, i: int, j: int)
    requires
        0 <= spot,
        0 <= stress <= DECIMAL_SCALE as int,
        0 < step,
        0 <= i < j,
        spot * stress >= (DECIMAL_SCALE as int) * step,
    ensures
        scenario_spot(spot, stress, step, i) < scenario_spot(spot, stress, step, j),
{
    let s = DECIMAL_SCALE as int;
    let ni = s * step - stress * step + stress * i;
    let nj = s * step - stress * step + stress * j;
    let den = s * step;
    assert(spot * nj >= spot * ni + den) by (nonlinear_arith)
        requires
            ni == s * step - stress * step + stress * i,
            nj == s * step - stress * step + stress * j,
            den == s * step,
            i < j,
            0 <= stress,
            0 <= spot,
            spot * stress >= den,
    ;
    assert(den > 0) by (nonlinear_arith)
        requires
            den == s * step,
            s > 0,
            step > 0,
    ;
    vstd::arithmetic::div_mod::lemma_div_plus_one(spot * ni, den);
    vstd::arithmetic::div_mod::lemma_div_is_ordered(den + spot * ni, spot * nj, den);
}

/// The generator's extreme scenarios are the down- and up-stressed spots.
pub proof fn lemma_scenario_extremes(spot: int, stress: int, step: int)
    requires
        0 <= spot,
        0 <= stress <= DECIMAL_SCALE as int,
        0 < step,
    ensures
        scenario_spot(spot, stress, step, 0) == stress_down(spot, stress),
        scenario_spot(spot, stress, step, 2 * step) == stress_up(spot, stress),
{
    let s = DECIMAL_SCALE as int;
    assert(spot * (s * step - stress * step + stress * 0) == step * (spot * (s - stress)))
        by (nonlinear_arith);
    assert(spot * (s * step - stress * step + stress * (2 * step)) == step * (spot * (s + stress)))
        by (nonlinear_arith);
    assert(s * step == step * s) by (nonlinear_arith);
    assert(0 <= spot * (s - stress)) by (nonlinear_arith)
        requires
            0 <= spot,
            stress <= s,
    ;
    assert(0 <= spot * (s + stress)) by (nonlinear_arith)
        requires
            0 <= spot,
            0 <= stress,
            s == 1_000_000,
    ;
    vstd::arithmetic::div_mod::lemma_div_multiples_vanish_quotient(step, spot * (s - stress), s);
    vstd::arithmetic::div_mod::lemma_div_multiples_vanish_quotient(step, spot * (s + stress), s);
}

/// The legacy scenario generator: `2 * step + 1` spots from `spot * (1 - stress)`
/// up to `spot * (1 + stress)` in equal increments, each rounded down.
pub fn generate_stress_spot(spot: u64, stress: u64, step: u8) -> (r: Vec<u64>)
    requires
        0 < step,
        stress <= DECIMAL_SCALE,
        spot <= u64::MAX / 2,
    ensures
        r@.len() == 2 * step + 1,
        forall|i: int|
            0 <= i < r@.len() ==> #[trigger] r@[i] as int == scenario_spot(
                spot as int,
                stress as int,
                step as int,
                i,
            ),
        forall|i: int, j: int| 0 <= i <= j < r@.len() ==> r@[i] <= r@[j],
        (spot as int) * (stress as int) >= (DECIMAL_SCALE as int) * (step as int) ==> forall|i: int, j: int|
            0 <= i < j < r@.len() ==> r@[i] < r@[j],
        r@[0] as int == stress_down(spot as int, stress as int),
        r@[2 * step] as int == stress_up(spot as int, stress as int),
{
    let ghost s = DECIMAL_SCALE as int;
    let den: u128 = (DECIMAL_SCALE as u128) * (step as u128);
    let n: u16 = (step as u16) * 2 + 1;
    let mut result: Vec<u64> = Vec::new();
    let mut i: u16 = 0;
    while i < n
        invariant
            n == 2 * step + 1,
            0 < step,
            stress <= DECIMAL_SCALE,
            spot <= u64::MAX / 2,
            den == s * step,
            s == DECIMAL_SCALE as int,
            i <= n,
            result@.len() == i,
            forall|a: int|
                0 <= a < i ==> #[trigger] result@[a] as int == scenario_spot(
                    spot as int,
                    stress as int,
                    step as int,
                    a,
                ),
        decreases n - i,
    {
        assert(stress * step <= s * step <= 1_000_000 * 255) by (nonlinear_arith)
            requires
                stress <= s,
                0 < step <= 255,
                s == 1_000_000,
        ;
        assert(stress * i <= 1_000_000 * 512) by (nonlinear_arith)
            requires
                stress <= 1_000_000,
                i <= 512,
        ;
        let a: u128 = (DECIMAL_SCALE as u128) * (step as u128);
        let b: u128 = (stress as u128) * (step as u128);
        let c: u128 = (stress as u128) * (i as u128);
        let num: u128 = a - b + c;
        assert((spot as int) * num <= 0x7fff_ffff_ffff_ffff * (1_000_000 * 1024)) by (nonlinear_arith)
            requires
                spot <= 0x7fff_ffff_ffff_ffff,
                0 <= num <= 1_000_000 * 1024,
        ;
        let v: u128 = (spot as u128) * num / den;
        proof {
            lemma_scenario_bounds(spot as int, stress as int, step as int, i as int);
        }
        result.push(v as u64);
        i += 1;
    }
    proof {
        assert forall|a: int, b: int| 0 <= a <= b < result@.len() implies result@[a] <= result@[b] by {
            lemma_scenario_monotone(spot as int, stress as int, step as int, a, b);
        }
        if (spot as int) * (stress as int) >= (DECIMAL_SCALE as int) * (step as int) {
            assert forall|a: int, b: int| 0 <= a < b < result@.len() implies result@[a] < result@[b] by {
                lemma_scenario_strict(spot as int, stress as int, step as int, a, b);
            }
        }
        lemma_scenario_extremes(spot as int, stress as int, step as int);
    }
    result
}

/// The two extreme stressed spots `(spot * (1 - stress), spot * (1 + stress))`.
pub fn stress_spots(spot: u64, stress: u64) -> (r: (u64, u64))
    requires
        stress <= DECIMAL_SCALE,
        spot <= u64::MAX / 2,
    ensures
        r.0 as int == stress_down(spot as int, stress as int),
        r.1 as int == stress_up(spot as int, stress as int),
        r.0 <= spot <= r.1,
{
    let ghost s = DECIMAL_SCALE as int;
    assert((spot as int) * (s - stress) <= (spot as int) * s) by (nonlinear_arith)
        requires
            0 <= stress <= s,
            0 <= spot,
    ;
    assert((spot as int) * (s + stress) <= (spot as int) * (2 * s)) by (nonlinear_arith)
        requires
            0 <= stress <= s,
            0 <= spot,
    ;
    assert((spot as int) * (s + stress) >= (spot as int) * s) by (nonlinear_arith)
        requires
            0 <= stress,
            0 <= spot,
    ;
    assert((spot as int) * (s - stress) >= 0) by (nonlinear_arith)
        requires
            stress <= s,
            0 <= spot,
    ;
    assert((spot as int) * (2 * s) <= 0xffff_ffff_ffff_ffff * s) by (nonlinear_arith)
        requires
            spot <= 0x7fff_ffff_ffff_ffff,
            s == 1_000_000,
    ;
    let down: u128 = (spot as u128) * ((DECIMAL_SCALE - stress) as u128) / (DECIMAL_SCALE as u128);
    let up: u128 = (spot as u128) * ((DECIMAL_SCALE + stress) as u128) / (DECIMAL_SCALE as u128);
    proof {
        vstd::arithmetic::div_mod::lemma_div_is_ordered(
            (spot as int) * (s - stress),
            (spot as int) * s,
            s,
        );
        vstd::arithmetic::div_mod::lemma_div_is_ordered(
            (spot as int) * s,
            (spot as int) * (s + stress),
            s,
        );
        vstd::arithmetic::div_mod::lemma_div_is_ordered(
            (spot as int) * (s + stress),
            (spot as int) * (2 * s),
            s,
        );
        assert((spot as int) * (2 * s) == (2 * spot) * s) by (nonlinear_arith);
        vstd::arithmetic::div_mod::lemma_div_by_multiple(spot as int, s);
        vstd::arithmetic::div_mod::lemma_div_by_multiple(2 * spot, s);
        vstd::arithmetic::div_mod::lemma_div_pos_is_pos((spot as int) * (s - stress), s);
    }
    (down as u64, up as u64)
}

proof fn lemma_offset_bounds(down: int, up: int, step: int, i: int)
    requires
        0 < step,
        0 <= i < 2 * step,
    ensures
        up >= down ==> 0 <= interp_offset(down, up, step, i) <= up - down,
        up < down ==> up - down <= interp_offset(down, up, step, i) <= 0,
{
    let d = up - down;
    if d >= 0 {
        assert(0 <= i * d <= (2 * step) * d) by (nonlinear_arith)
            requires
                0 <= i < 2 * step,
                d >= 0,
        ;
        vstd::arithmetic::div_mod::lemma_div_is_ordered(i * d, (2 * step) * d, 2 * step);
        vstd::arithmetic::div_mod::lemma_div_by_multiple(d, 2 * step);
        vstd::arithmetic::div_mod::lemma_div_pos_is_pos(i * d, 2 * step);
        assert((2 * step) * d == d * (2 * step)) by (nonlinear_arith);
    } else {
        let e = -d;
        assert(0 <= i * e <= (2 * step) * e) by (nonlinear_arith)
            requires
                0 <= i < 2 * step,
                e >= 0,
        ;
        assert(i * d == -(i * e)) by (nonlinear_arith)
            requires
                e == -d,
        ;
        vstd::arithmetic::div_mod::lemma_div_is_ordered(i * e, (2 * step) * e, 2 * step);
        vstd::arithmetic::div_mod::lemma_div_by_multiple(e, 2 * step);
        vstd::arithmetic::div_mod::lemma_div_pos_is_pos(i * e, 2 * step);
        assert((2 * step) * e == e * (2 * step)) by (nonlinear_arith);
        if i * e == 0 {
        } else {
            assert(i * d < 0);
        }
    }
}

/// Every interpolated slot lies between `down` and `up`.
pub proof fn lemma_slot_between(down: int, up: int, step: int, a: int)
    requires
        0 < step,
        0 <= a < 2 * step,
    ensures
        up >= down ==> down <= interpolated_slot(down, up, step, a) <= up,
        up < down ==> up <= interpolated_slot(down, up, step, a) <= down,
{
    if a < step {
        lemma_offset_bounds(down, up, step, a);
    } else {
        lemma_offset_bounds(down, up, step, 2 * step - 1 - a);
    }
}

/// The interpolated vector starts at `down` and ends at `up` exactly.
pub proof fn lemma_interpolation_endpoints(down: int, up: int, step: int)
    requires
        0 < step,
    ensures
        interpolated_slot(down, up, step, 0) == down,
        interpolated_slot(down, up, step, 2 * step - 1) == up,
{
    assert(0 * (up - down) == 0);
    assert(0int / (2 * step) == 0);
}

/// `i * diff / (2 * step)`, rounded toward zero.
fn offset_at(i: u8, diff: i128, step: u8) -> (r: i128)
    requires
        0 < step,
        i < 2 * step,
        -0x1_0000_0000_0000_0000 <= diff <= 0x1_0000_0000_0000_0000,
    ensures
        r == trunc_div(i * diff, 2 * step),
{
    let den: i128 = 2 * (step as i128);
    assert((i as int) * (diff as int) <= 256 * 0x1_0000_0000_0000_0000) by (nonlinear_arith)
        requires
            0 <= i < 256,
            diff <= 0x1_0000_0000_0000_0000,
    ;
    assert((i as int) * (diff as int) >= -256 * 0x1_0000_0000_0000_0000) by (nonlinear_arith)
        requires
            0 <= i < 256,
            diff >= -0x1_0000_0000_0000_0000,
    ;
    let num: i128 = (i as i128) * diff;
    if num >= 0 {
        num / den
    } else {
        -((-num) / den)
    }
}

/// The `2 * step` price changes of one instrument: `down` and `up` are the
/// price changes in the two extreme scenarios, and the slots between them
/// are linearly interpolated, filled symmetrically from both ends.
pub fn interpolate_stress_changes(down: i64, up: i64, step: u8) -> (r: Vec<i64>)
    requires
        0 < step <= 127,
    ensures
        r@.len() == 2 * step,
        forall|a: int|
            0 <= a < r@.len() ==> #[trigger] r@[a] as int == interpolated_slot(
                down as int,
                up as int,
                step as int,
                a,
            ),
        r@[0] == down,
        r@[2 * step - 1] == up,
{
    let n: u8 = step * 2;
    let diff: i128 = (up as i128) - (down as i128);
    let mut result: Vec<i64> = vec![0i64; n as usize];
    let mut i: u8 = 0;
    while i < step
        invariant
            0 < step <= 127,
            n == 2 * step,
            diff == up - down,
            i <= step,
            result@.len() == n,
            forall|a: int|
                (0 <= a < i || n - i <= a < n) ==> #[trigger] result@[a] as int == interpolated_slot(
                    down as int,
                    up as int,
                    step as int,
                    a,
                ),
        decreases step - i,
    {
        let off = offset_at(i, diff, step);
        proof {
            lemma_offset_bounds(down as int, up as int, step as int, i as int);
        }
        let lo: i64 = ((down as i128) + off) as i64;
        let hi: i64 = ((up as i128) - off) as i64;
        result.set(i as usize, lo);
        result.set((n - 1 - i) as usize, hi);
        i += 1;
    }
    proof {
        lemma_interpolation_endpoints(down as int, up as int, step as int);
    }
    result
}

/// Price changes in the stressed scenarios for one instrument, from its price
/// at the base spot and at the two extreme stressed spots.
pub fn stress_price_changes(price: u64, price_down: u64, price_up: u64, step: u8) -> (r: Vec<i64>)
    requires
        0 < step <= 127,
        price <= i64::MAX,
        price_down <= i64::MAX,
        price_up <= i64::MAX,
    ensures
        r@.len() == 2 * step,
        forall|a: int|
            0 <= a < r@.len() ==> #[trigger] r@[a] as int == interpolated_slot(
                price_down - price,
                price_up - price,
                step as int,
                a,
            ),
{
    let down: i64 = (price_down as i64) - (price as i64);
    let up: i64 = (price_up as i64) - (price as i64);
    interpolate_stress_changes(down, up, step)
}

/// Whether every instrument's prices fit the signed fixed-point range.
pub open spec fn prices_in_range(price: Seq<u64>, price_down: Seq<u64>, price_up: Seq<u64>) -> bool {
    forall|i: int|
        0 <= i < price.len() ==> #[trigger] price[i] <= i64::MAX && price_down[i] <= i64::MAX
            && price_up[i] <= i64::MAX
}

/// Whether the per-instrument inputs of `stress_function` all have one length.
pub open spec fn same_len(
    strike: &Vec<u64>,
    is_call: &Vec<u8>,
    price: &Vec<u64>,
    price_down: &Vec<u64>,
    price_up: &Vec<u64>,
) -> bool {
    let n = strike.len();
    is_call.len() == n && price.len() == n && price_down.len() == n && price_up.len() == n
}

/// Stress results of every instrument: its base price, its intrinsic value at
/// `spot`, and its interpolated price changes. `price`, `price_down` and
/// `price_up` are each instrument's option price at `spot` and at the two
/// extreme stressed spots (see `stress_spots`).
pub fn stress_function(
    spot: u64,
    strike: &Vec<u64>,
    is_call: &Vec<u8>,
    step: u8,
    price: &Vec<u64>,
    price_down: &Vec<u64>,
    price_up: &Vec<u64>,
) -> (r: Result<StressFunctionResult, ErrorCode>)
    requires
        0 < step <= 127,
    ensures
        !same_len(strike, is_call, price, price_down, price_up) <==> r == Err::<
            StressFunctionResult,
            ErrorCode,
        >(ErrorCode::LengthMismatch),
        (same_len(strike, is_call, price, price_down, price_up) && !prices_in_range(
            price@,
            price_down@,
            price_up@,
        )) <==> r == Err::<StressFunctionResult, ErrorCode>(ErrorCode::Overflow),
        (same_len(strike, is_call, price, price_down, price_up) && prices_in_range(
            price@,
            price_down@,
            price_up@,
        )) <==> r is Ok,
        r is Ok ==> ({
            let res = r->Ok_0;
            &&& res.price@ == price@
            &&& res.intrinsic_value@.len() == strike.len()
            &&& res.stress_price_delta@.len() == strike.len()
            &&& forall|i: int|
                0 <= i < strike.len() ==> #[trigger] res.intrinsic_value@[i] as int == intrinsic_spec(
                    spot as int,
                    strike@[i] as int,
                    is_call@[i] == 1,
                )
            &&& forall|i: int|
                0 <= i < strike.len() ==> (#[trigger] res.stress_price_delta@[i])@.len() == 2 * step
            &&& forall|i: int|
                0 <= i < strike.len() ==> (#[trigger] res.stress_price_delta@[i])@[0] == price_down@[i]
                    - price@[i] && res.stress_price_delta@[i]@[2 * step - 1] == price_up@[i] - price@[i]
            &&& forall|i: int, a: int|
                0 <= i < strike.len() && 0 <= a < 2 * step ==> #[trigger] res.stress_price_delta@[i]@[a]
                    as int == interpolated_slot(
                    price_down@[i] - price@[i],
                    price_up@[i] - price@[i],
                    step as int,
                    a,
                )
        }),
{
    let n = strike.len();
    if is_call.len() != n || price.len() != n || price_down.len() != n || price_up.len() != n {
        return Err(ErrorCode::LengthMismatch);
    }
    let mut k: usize = 0;
    while k < n
        invariant
            k <= n,
            n == strike.len(),
            n == is_call.len(),
            n == price.len(),
            n == price_down.len(),
            n == price_up.len(),
            forall|a: int|
                0 <= a < k ==> #[trigger] price@[a] <= i64::MAX && price_down@[a] <= i64::MAX
                    && price_up@[a] <= i64::MAX,
        decreases n - k,
    {
        if price[k] > i64::MAX as u64 || price_down[k] > i64::MAX as u64 || price_up[k]
            > i64::MAX as u64 {
            assert(!(price@[k as int] <= i64::MAX && price_down@[k as int] <= i64::MAX
                && price_up@[k as int] <= i64::MAX));
            assert(!prices_in_range(price@, price_down@, price_up@));
            return Err(ErrorCode::Overflow);
        }
        k += 1;
    }
    let mut intrinsic: Vec<u64> = Vec::new();
    let mut changes: Vec<Vec<i64>> = Vec::new();
    let mut i: usize = 0;
    while i < n
        invariant
            0 < step <= 127,
            i <= n,
            n == strike.len(),
            n == is_call.len(),
            n == price.len(),
            n == price_down.len(),
            n == price_up.len(),
            prices_in_range(price@, price_down@, price_up@),
            intrinsic@.len() == i,
            changes@.len() == i,
            forall|a: int|
                0 <= a < i ==> #[trigger] intrinsic@[a] as int == intrinsic_spec(
                    spot as int,
                    strike@[a] as int,
                    is_call@[a] == 1,
                ),
            forall|a: int| 0 <= a < i ==> (#[trigger] changes@[a])@.len() == 2 * step,
            forall|a: int, b: int|
                0 <= a < i && 0 <= b < 2 * step ==> #[trigger] changes@[a]@[b] as int
                    == interpolated_slot(
                    price_down@[a] - price@[a],
                    price_up@[a] - price@[a],
                    step as int,
                    b,
                ),
        decreases n - i,
    {
        intrinsic.push(intrinsic_value_single(spot, strike[i], is_call[i] == 1));
        changes.push(stress_price_changes(price[i], price_down[i], price_up[i], step));
        i += 1;
    }
    Ok(StressFunctionResult { price: price.clone(), intrinsic_value: intrinsic, stress_price_delta: changes })
}

} // verus!
