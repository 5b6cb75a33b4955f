use vstd::prelude::*;

verus! {

/// Fixed-point scale of every price, spot, stress fraction and delta: a value
/// `v` stands for `v / DECIMAL_SCALE`.
pub const DECIMAL_SCALE: u64 = 1_000_000;

/// Seconds in a 365-day year; a time to maturity in seconds divided by this
/// is the year fraction of the pricing formulas.
pub const SECS_IN_STANDARD_YEAR: u64 = 31_536_000;

/// Stress fraction applied to the spot in both directions (0.3 at scale).
pub const STRESS: u64 = 300_000;

/// Number of interpolated scenarios on each side of the base spot.
pub const STEP: u8 = 5;

/// Smallest absolute delta that the AMM sizes against (0.05 at scale).
pub const DELTA_LIMIT: i64 = 50_000;

/// Number of instruments one Calculate step of the margin-stress cycle
/// computes.
pub const INSTRUMENTS_PER_STEP: usize = 2;

/// Number of price levels on each side of an AMM quote ladder.
pub const QUOTE_LEVELS: usize = 5;

/// Price distance between successive AMM quote levels, as a fraction of the
/// spot (0.005 at scale).
pub const LEVEL_SPREAD: u64 = 5_000;

} // verus!
