//! The margin engine: worst stressed P&L of a position vector, with add-ons
//! for the soonest-expiring instruments.
use vstd::prelude::*;

use crate::constants::{DECIMAL_SCALE, SECS_IN_STANDARD_YEAR};
use crate::errors::ErrorCode;
use crate::stress::trunc_div;

verus! {

/// `|x|` as an integer.
pub open spec fn abs(x: int) -> int {
    if x >= 0 { x } else { -x }
}

/// `min(a, b)`.
pub open spec fn min(a: int, b: int) -> int {
    if a <= b { a } else { b }
}

/// Column `j` of the product of the row vector `u` with the matrix `m`,
/// over the first `n` rows: the sum of `u[i] * m[i][j]`.
pub open spec fn col_dot(u: Seq<i64>, m: Seq<Vec<i64>>, j: int, n: int) -> int
    decreases n,
{
    if n <= 0 {
        0
    } else {
        col_dot(u, m, j, n - 1) + u[n - 1] * m[n - 1]@[j]
    }
}

/// The sum of `|u[i] * m[i][j]|` over the first `n` rows: a bound on every
/// partial sum of column `j` of the product.
pub open spec fn col_abs(u: Seq<i64>, m: Seq<Vec<i64>>, j: int, n: int) -> int
    decreases n,
{
    if n <= 0 {
        0
    } else {
        col_abs(u, m, j, n - 1) + abs(u[n - 1] as int) * abs(m[n - 1]@[j] as int)
    }
}

/// The sum of `u[i] * v[i]` over the first `n` entries.
pub open spec fn vec_dot(u: Seq<i64>, v: Seq<u64>, n: int) -> int
    decreases n,
{
    if n <= 0 {
        0
    } else {
        vec_dot(u, v, n - 1) + u[n - 1] * v[n - 1]
    }
}

/// The sum of `|u[i]| * v[i]` over the first `n` entries.
pub open spec fn vec_abs(u: Seq<i64>, v: Seq<u64>, n: int) -> int
    decreases n,
{
    if n <= 0 {
        0
    } else {
        vec_abs(u, v, n - 1) + abs(u[n - 1] as int) * v[n - 1]
    }
}

/// The sum of `u[i] * v[i]` over the first `n` entries whose time to maturity
/// equals `tmin`.
pub open spec fn maturing_dot(u: Seq<i64>, t: Seq<u64>, v: Seq<u64>, tmin: int, n: int) -> int
    decreases n,
{
    if n <= 0 {
        0
    } else {
        maturing_dot(u, t, v, tmin, n - 1) + (if t[n - 1] == tmin {
            u[n - 1] * v[n - 1]
        } else {
            0
        })
    }
}

/// The smallest of the first `n` entries of `t` (`n >= 1`).
pub open spec fn seq_min(t: Seq<u64>, n: int) -> int
    decreases n,
{
    if n <= 1 {
        t[0] as int
    } else {
        min(seq_min(t, n - 1), t[n - 1] as int)
    }
}

/// The smallest of the first `k` columns of `u * m` (`k >= 1`).
pub open spec fn min_col(u: Seq<i64>, m: Seq<Vec<i64>>, k: int) -> int
    decreases k,
{
    if k <= 1 {
        col_dot(u, m, 0, u.len() as int)
    } else {
        min(min_col(u, m, k - 1), col_dot(u, m, k - 1, u.len() as int))
    }
}

/// A position-weighted sum scaled by `2 / (365 * tau + 1)`, with `tau` the year
/// fraction of `secs` seconds, rounded toward zero.
pub open spec fn maturing_weighted(sum: int, secs: int) -> int {
    let y = SECS_IN_STANDARD_YEAR as int;
    trunc_div(2 * y * sum, 365 * secs + y)
}

/// The total margin from its parts: the stressed P&L plus the smaller of net
/// intrinsic value and net premium (capped at zero), the liquidity add-on and
/// the premium add-on.
pub open spec fn margin_combine(
    stress_result: int,
    net_intrinsic: int,
    net_premium: int,
    maturing_premium: int,
    maturing_liquidity: int,
) -> int {
    let margin_1 = min(stress_result + min(net_intrinsic, net_premium), 0);
    let margin_2 = if maturing_liquidity < net_intrinsic && maturing_liquidity < 0 {
        maturing_liquidity - net_intrinsic
    } else {
        0
    };
    let margin_3 = if maturing_premium < 0 { maturing_premium } else { 0 };
    margin_1 + margin_2 + margin_3
}

/// The margin of positions `u` on instruments with times to maturity `t`
/// (seconds), base prices `price`, intrinsic values `intrinsic` and stressed
/// price changes `m` (one row per instrument, one column per scenario).
pub open spec fn margin_value(
    u: Seq<i64>,
    t: Seq<u64>,
    price: Seq<u64>,
    intrinsic: Seq<u64>,
    m: Seq<Vec<i64>>,
) -> int {
    let n = u.len() as int;
    let tmin = seq_min(t, n);
    margin_combine(
        min_col(u, m, m[0]@.len() as int),
        vec_dot(u, intrinsic, n),
        vec_dot(u, price, n),
        maturing_weighted(maturing_dot(u, t, price, tmin, n), tmin),
        maturing_weighted(maturing_dot(u, t, intrinsic, tmin, n), tmin),
    )
}

/// Whether the per-instrument inputs all have the length of `u`.
pub open spec fn margin_lengths_agree(
    u: Seq<i64>,
    t: Seq<u64>,
    price: Seq<u64>,
    intrinsic: Seq<u64>,
    m: Seq<Vec<i64>>,
) -> bool {
    t.len() == u.len() && price.len() == u.len() && intrinsic.len() == u.len() && m.len() == u.len()
}

/// Whether every row of `m` has the length of its first row.
pub open spec fn is_rectangular(m: Seq<Vec<i64>>) -> bool {
    forall|i: int| 0 <= i < m.len() ==> (#[trigger] m[i])@.len() == m[0]@.len()
}

/// Whether every position-weighted sum fits in `i64`: each column of the
/// stressed P&L, the premium and the intrinsic value, counted in absolute value.
pub open spec fn sums_in_range(u: Seq<i64>, price: Seq<u64>, intrinsic: Seq<u64>, m: Seq<Vec<i64>>) -> bool {
    let n = u.len() as int;
    &&& forall|j: int| 0 <= j < m[0]@.len() ==> #[trigger] col_abs(u, m, j, n) <= i64::MAX
    &&& vec_abs(u, price, n) <= i64::MAX
    &&& vec_abs(u, intrinsic, n) <= i64::MAX
}

/// Whether every sum the margin computation forms, and its result, fit in `i64`.
pub open spec fn margin_in_range(
    u: Seq<i64>,
    t: Seq<u64>,
    price: Seq<u64>,
    intrinsic: Seq<u64>,
    m: Seq<Vec<i64>>,
) -> bool {
    &&& sums_in_range(u, price, intrinsic, m)
    &&& margin_value(u, t, price, intrinsic, m) >= i64::MIN
}

/// What `margin_function` returns for these inputs: the first failed check
/// as an error, in the order lengths, emptiness, shape, range; else the margin.
pub open spec fn margin_outcome(
    u: Seq<i64>,
    t: Seq<u64>,
    price: Seq<u64>,
    intrinsic: Seq<u64>,
    m: Seq<Vec<i64>>,
) -> Result<i64, ErrorCode> {
    if !margin_lengths_agree(u, t, price, intrinsic, m) {
        Err(ErrorCode::LengthMismatch)
    } else if !(u.len() > 0 && m[0]@.len() > 0) {
        Err(ErrorCode::EmptyInput)
    } else if !is_rectangular(m) {
        Err(ErrorCode::RaggedMatrix)
    } else if !margin_in_range(u, t, price, intrinsic, m) {
        Err(ErrorCode::Overflow)
    } else {
        Ok(margin_value(u, t, price, intrinsic, m) as i64)
    }
}

/// Relies on ndarray's `dot` of a one-dimensional array with a two-dimensional
/// one: entry `j` of the product is the sum over `i` of `v[i] * m[i][j]`. The
/// shapes must agree, and the bound on the absolute sums keeps every partial
/// sum inside `i64`.
#[verifier::external_body]
fn row_times_matrix(v: &Vec<i64>, m: &Vec<Vec<i64>>, cols: usize) -> (r: Vec<i64>)
    requires
        m.len() == v.len(),
        forall|i: int| 0 <= i < m.len() ==> (#[trigger] m[i])@.len() == cols,
        forall|j: int| 0 <= j < cols ==> #[trigger] col_abs(v@, m@, j, v.len() as int) <= i64::MAX,
    ensures
        r@.len() == cols,
        forall|j: int| 0 <= j < cols ==> #[trigger] r@[j] == col_dot(v@, m@, j, v.len() as int),
{
    let flat: Vec<i64> = m.iter().flatten().copied().collect();
    let a = ndarray::Array2::from_shape_vec((m.len(), cols), flat).unwrap();
    ndarray::Array1::from_vec(v.clone()).dot(&a).to_vec()
}

proof fn lemma_col_abs_monotone(u: Seq<i64>, m: Seq<Vec<i64>>, j: int, a: int, b: int)
    requires
        0 <= a <= b,
    ensures
        col_abs(u, m, j, a) <= col_abs(u, m, j, b),
    decreases b - a,
{
    if a < b {
        lemma_col_abs_monotone(u, m, j, a, b - 1);
        assert(abs(u[b - 1] as int) * abs(m[b - 1]@[j] as int) >= 0) by (nonlinear_arith);
    }
}

proof fn lemma_vec_abs_monotone(u: Seq<i64>, v: Seq<u64>, a: int, b: int)
    requires
        0 <= a <= b,
    ensures
        vec_abs(u, v, a) <= vec_abs(u, v, b),
    decreases b - a,
{
    if a < b {
        lemma_vec_abs_monotone(u, v, a, b - 1);
        assert(abs(u[b - 1] as int) * v[b - 1] >= 0) by (nonlinear_arith);
    }
}

proof fn lemma_vec_dot_bounded(u: Seq<i64>, t: Seq<u64>, v: Seq<u64>, tmin: int, n: int)
    requires
        0 <= n,
    ensures
        abs(vec_dot(u, v, n)) <= vec_abs(u, v, n),
        abs(maturing_dot(u, t, v, tmin, n)) <= vec_abs(u, v, n),
    decreases n,
{
    if n > 0 {
        lemma_vec_dot_bounded(u, t, v, tmin, n - 1);
        let x = u[n - 1] as int;
        let y = v[n - 1] as int;
        assert(abs(x * y) == abs(x) * y) by (nonlinear_arith)
            requires
                y >= 0,
        ;
        assert(abs(x) * y >= 0) by (nonlinear_arith)
            requires
                y >= 0,
        ;
    }
}

proof fn lemma_maturing_weighted_bounded(sum: int, secs: int)
    requires
        secs >= 0,
        abs(sum) <= i64::MAX,
    ensures
        abs(maturing_weighted(sum, secs)) <= 2 * i64::MAX,
{
    let y = SECS_IN_STANDARD_YEAR as int;
    let d = 365 * secs + y;
    assert(d >= y);
    if sum >= 0 {
        assert(2 * y * sum <= d * (2 * i64::MAX)) by (nonlinear_arith)
            requires
                0 <= sum <= i64::MAX,
                d >= y,
                y > 0,
        ;
        vstd::arithmetic::div_mod::lemma_div_is_ordered(2 * y * sum, d * (2 * i64::MAX), d);
        vstd::arithmetic::div_mod::lemma_div_by_multiple(2 * i64::MAX, d);
        assert(d * (2 * i64::MAX) == (2 * i64::MAX) * d) by (nonlinear_arith);
        assert(2 * y * sum >= 0) by (nonlinear_arith)
            requires
                sum >= 0,
                y > 0,
        ;
        vstd::arithmetic::div_mod::lemma_div_pos_is_pos(2 * y * sum, d);
    } else {
        let e = -sum;
        assert(2 * y * e <= d * (2 * i64::MAX)) by (nonlinear_arith)
            requires
                0 <= e <= i64::MAX,
                d >= y,
                y > 0,
        ;
        assert(-(2 * y * sum) == 2 * y * e) by (nonlinear_arith)
            requires
                e == -sum,
        ;
        vstd::arithmetic::div_mod::lemma_div_is_ordered(2 * y * e, d * (2 * i64::MAX), d);
        vstd::arithmetic::div_mod::lemma_div_by_multiple(2 * i64::MAX, d);
        assert(d * (2 * i64::MAX) == (2 * i64::MAX) * d) by (nonlinear_arith);
        assert(2 * y * e >= 0) by (nonlinear_arith)
            requires
                e >= 0,
                y > 0,
        ;
        vstd::arithmetic::div_mod::lemma_div_pos_is_pos(2 * y * e, d);
    }
}

/// Whatever the inputs, the combined margin is never positive.
pub proof fn lemma_margin_combine_nonpositive(
    stress_result: int,
    net_intrinsic: int,
    net_premium: int,
    maturing_premium: int,
    maturing_liquidity: int,
)
    ensures
        margin_combine(
            stress_result,
            net_intrinsic,
            net_premium,
            maturing_premium,
            maturing_liquidity,
        ) <= 0,
{
}

/// The margin of any position vector against any prices, intrinsic values,
/// maturities and stress matrix is a deficit or zero, never a surplus.
pub proof fn lemma_margin_nonpositive(
    u: Seq<i64>,
    t: Seq<u64>,
    price: Seq<u64>,
    intrinsic: Seq<u64>,
    m: Seq<Vec<i64>>,
)
    ensures
        margin_value(u, t, price, intrinsic, m) <= 0,
{
    let n = u.len() as int;
    let tmin = seq_min(t, n);
    lemma_margin_combine_nonpositive(
        min_col(u, m, m[0]@.len() as int),
        vec_dot(u, intrinsic, n),
        vec_dot(u, price, n),
        maturing_weighted(maturing_dot(u, t, price, tmin, n), tmin),
        maturing_weighted(maturing_dot(u, t, intrinsic, tmin, n), tmin),
    );
}

/// When every instrument shares the same time to maturity, all of them are
/// tied at the minimum and each one contributes to the maturing sums: they
/// equal the full position-weighted sums.
pub proof fn lemma_ties_all_contribute(u: Seq<i64>, t: Seq<u64>, v: Seq<u64>, n: int)
    requires
        1 <= n <= t.len(),
        forall|i: int| 0 <= i < n ==> #[trigger] t[i] == t[0],
    ensures
        seq_min(t, n) == t[0],
        maturing_dot(u, t, v, seq_min(t, n), n) == vec_dot(u, v, n),
{
    lemma_seq_min_all_equal(t, n);
    lemma_maturing_all(u, t, v, t[0] as int, n);
}

proof fn lemma_seq_min_all_equal(t: Seq<u64>, n: int)
    requires
        1 <= n <= t.len(),
        forall|i: int| 0 <= i < n ==> #[trigger] t[i] == t[0],
    ensures
        seq_min(t, n) == t[0],
    decreases n,
{
    if n > 1 {
        lemma_seq_min_all_equal(t, n - 1);
        assert(t[n - 1] == t[0]);
    }
}

proof fn lemma_maturing_all(u: Seq<i64>, t: Seq<u64>, v: Seq<u64>, tmin: int, n: int)
    requires
        0 <= n <= t.len(),
        forall|i: int| 0 <= i < n ==> #[trigger] t[i] == tmin,
    ensures
        maturing_dot(u, t, v, tmin, n) == vec_dot(u, v, n),
    decreases n,
{
    if n > 0 {
        lemma_maturing_all(u, t, v, tmin, n - 1);
        assert(t[n - 1] == tmin);
    }
}

proof fn lemma_seq_min_step(t: Seq<u64>, n: int)
    requires
        1 <= n,
    ensures
        seq_min(t, n + 1) == min(seq_min(t, n), t[n] as int),
{
}

/// A maturing sum scaled by the weight of a `secs`-second maturity.
fn weighted(sum: i128, secs: u64) -> (r: i128)
    requires
        abs(sum as int) <= i64::MAX,
    ensures
        r == maturing_weighted(sum as int, secs as int),
        abs(r as int) <= 2 * i64::MAX,
{
    proof {
        lemma_maturing_weighted_bounded(sum as int, secs as int);
    }
    let y: i128 = SECS_IN_STANDARD_YEAR as i128;
    assert(-0x1_0000_0000_0000_0000_0000_0000 <= 2 * y * sum <= 0x1_0000_0000_0000_0000_0000_0000) by (nonlinear_arith)
        requires
            y == 31_536_000,
            -0x7fff_ffff_ffff_ffff <= sum <= 0x7fff_ffff_ffff_ffff,
    ;
    let num: i128 = 2 * y * sum;
    let den: i128 = 365 * (secs as i128) + y;
    if num >= 0 {
        num / den
    } else {
        -((-num) / den)
    }
}

/// Sums `u[i] * v[i]` over every entry and over the entries whose maturity
/// is `tmin`, or reports that the absolute sum leaves `i64`.
fn checked_dots(u: &Vec<i64>, t: &Vec<u64>, v: &Vec<u64>, tmin: u64) -> (r: Option<(i128, i128)>)
    requires
        t.len() == u.len(),
        v.len() == u.len(),
    ensures
        r is None <==> vec_abs(u@, v@, u.len() as int) > i64::MAX,
        r is Some ==> r->Some_0.0 == vec_dot(u@, v@, u.len() as int) && r->Some_0.1 == maturing_dot(
            u@,
            t@,
            v@,
            tmin as int,
            u.len() as int,
        ),
{
    let n = u.len();
    let mut abs_sum: i128 = 0;
    let mut dot: i128 = 0;
    let mut mat: i128 = 0;
    let mut i: usize = 0;
    while i < n
        invariant
            n == u.len(),
            t.len() == n,
            v.len() == n,
            i <= n,
            abs_sum == vec_abs(u@, v@, i as int),
            abs_sum <= i64::MAX,
            dot == vec_dot(u@, v@, i as int),
            mat == maturing_dot(u@, t@, v@, tmin as int, i as int),
        decreases n - i,
    {
        let x: i128 = u[i] as i128;
        let ax: i128 = if x >= 0 { x } else { -x };
        assert(ax * (v[i as int] as int) <= 0x8000_0000_0000_0000 * 0xffff_ffff_ffff_ffff) by (nonlinear_arith)
            requires
                0 <= ax <= 0x8000_0000_0000_0000,
                0 <= v[i as int] <= 0xffff_ffff_ffff_ffff,
        ;
        assert(ax * (v[i as int] as int) >= 0) by (nonlinear_arith)
            requires
                0 <= ax,
                0 <= v[i as int],
        ;
        let term: i128 = ax * (v[i] as i128);
        abs_sum = abs_sum + term;
        proof {
            lemma_vec_dot_bounded(u@, t@, v@, tmin as int, i as int + 1);
        }
        if abs_sum > i64::MAX as i128 {
            proof {
                lemma_vec_abs_monotone(u@, v@, i as int + 1, n as int);
            }
            return None;
        }
        assert(-term <= x * (v[i as int] as int) <= term) by (nonlinear_arith)
            requires
                term == ax * (v[i as int] as int),
                ax == abs(x as int),
                v[i as int] >= 0,
        ;
        dot = dot + x * (v[i] as i128);
        if t[i] == tmin {
            mat = mat + x * (v[i] as i128);
        }
        i += 1;
    }
    Some((dot, mat))
}

/// Checks that every column of `u * m` has an absolute sum inside `i64`.
fn columns_in_range(u: &Vec<i64>, m: &Vec<Vec<i64>>, cols: usize) -> (r: bool)
    requires
        m.len() == u.len(),
        forall|i: int| 0 <= i < m.len() ==> (#[trigger] m[i])@.len() == cols,
    ensures
        r <==> forall|j: int| 0 <= j < cols ==> #[trigger] col_abs(u@, m@, j, u.len() as int) <= i64::MAX,
{
    let n = u.len();
    let mut j: usize = 0;
    while j < cols
        invariant
            n == u.len(),
            m.len() == n,
            forall|i: int| 0 <= i < m.len() ==> (#[trigger] m[i])@.len() == cols,
            j <= cols,
            forall|b: int| 0 <= b < j ==> #[trigger] col_abs(u@, m@, b, n as int) <= i64::MAX,
        decreases cols - j,
    {
        let mut acc: i128 = 0;
        let mut i: usize = 0;
        while i < n
            invariant
                n == u.len(),
                m.len() == n,
                forall|a: int| 0 <= a < m.len() ==> (#[trigger] m[a])@.len() == cols,
                j < cols,
                i <= n,
                acc == col_abs(u@, m@, j as int, i as int),
                acc <= i64::MAX,
            decreases n - i,
        {
            let x: i128 = u[i] as i128;
            let y: i128 = m[i][j] as i128;
            let ax: i128 = if x >= 0 { x } else { -x };
            let ay: i128 = if y >= 0 { y } else { -y };
            assert(ax * ay <= 0x8000_0000_0000_0000 * 0x8000_0000_0000_0000) by (nonlinear_arith)
                requires
                    0 <= ax <= 0x8000_0000_0000_0000,
                    0 <= ay <= 0x8000_0000_0000_0000,
            ;
            assert(ax * ay >= 0) by (nonlinear_arith)
                requires
                    0 <= ax,
                    0 <= ay,
            ;
            acc = acc + ax * ay;
            if acc > i64::MAX as i128 {
                proof {
                    lemma_col_abs_monotone(u@, m@, j as int, i as int + 1, n as int);
                }
                return false;
            }
            i += 1;
        }
        j += 1;
    }
    true
}

/// The parts of a margin computation, before they are combined.
struct MarginParts {
    stress_result: i64,
    net_intrinsic: i128,
    net_premium: i128,
    tmin: u64,
    maturing_intrinsic: i128,
    maturing_premium: i128,
    maturing_liquidity: i128,
}

/// Checks the shapes and ranges of the margin inputs and computes the parts
/// that `margin_function` combines.
fn margin_parts(
    user: &Vec<i64>,
    t: &Vec<u64>,
    price: &Vec<u64>,
    intrinsic: &Vec<u64>,
    stress_price_change: &Vec<Vec<i64>>,
) -> (r: Result<MarginParts, ErrorCode>)
    ensures
        ({
            let (u, m) = (user@, stress_price_change@);
            let n = u.len() as int;
            let agree = margin_lengths_agree(u, t@, price@, intrinsic@, m);
            let nonempty = u.len() > 0 && m[0]@.len() > 0;
            &&& !agree <==> r == Err::<MarginParts, ErrorCode>(ErrorCode::LengthMismatch)
            &&& (agree && !nonempty) <==> r == Err::<MarginParts, ErrorCode>(ErrorCode::EmptyInput)
            &&& (agree && nonempty && !is_rectangular(m)) <==> r == Err::<MarginParts, ErrorCode>(
                ErrorCode::RaggedMatrix,
            )
            &&& (agree && nonempty && is_rectangular(m) && !sums_in_range(u, price@, intrinsic@, m))
                <==> r == Err::<MarginParts, ErrorCode>(ErrorCode::Overflow)
            &&& (agree && nonempty && is_rectangular(m) && sums_in_range(u, price@, intrinsic@, m))
                <==> r is Ok
            &&& r is Ok ==> {
                let p = r->Ok_0;
                &&& p.tmin == seq_min(t@, n)
                &&& p.stress_result == min_col(u, m, m[0]@.len() as int)
                &&& p.net_intrinsic == vec_dot(u, intrinsic@, n)
                &&& p.net_premium == vec_dot(u, price@, n)
                &&& p.maturing_intrinsic == maturing_dot(u, t@, intrinsic@, p.tmin as int, n)
                &&& p.maturing_premium == maturing_weighted(
                    maturing_dot(u, t@, price@, p.tmin as int, n),
                    p.tmin as int,
                )
                &&& p.maturing_liquidity == maturing_weighted(p.maturing_intrinsic as int, p.tmin as int)
                &&& abs(p.net_intrinsic as int) <= i64::MAX
                &&& abs(p.net_premium as int) <= i64::MAX
                &&& abs(p.maturing_intrinsic as int) <= i64::MAX
                &&& abs(p.maturing_premium as int) <= 2 * i64::MAX
                &&& abs(p.maturing_liquidity as int) <= 2 * i64::MAX
            }
        }),
{
    let n = user.len();
    if t.len() != n || price.len() != n || intrinsic.len() != n || stress_price_change.len() != n {
        return Err(ErrorCode::LengthMismatch);
    }
    if n == 0 {
        return Err(ErrorCode::EmptyInput);
    }
    let cols = stress_price_change[0].len();
    if cols == 0 {
        return Err(ErrorCode::EmptyInput);
    }
    let mut i: usize = 0;
    while i < n
        invariant
            n == stress_price_change.len(),
            n == user.len(),
            n == t.len(),
            n == price.len(),
            n == intrinsic.len(),
            n > 0,
            cols > 0,
            cols == stress_price_change@[0]@.len(),
            i <= n,
            forall|a: int| 0 <= a < i ==> (#[trigger] stress_price_change@[a])@.len() == cols,
        decreases n - i,
    {
        if stress_price_change[i].len() != cols {
            assert(stress_price_change@[i as int]@.len() != stress_price_change@[0]@.len());
            return Err(ErrorCode::RaggedMatrix);
        }
        i += 1;
    }
    let ghost u = user@;
    let ghost m = stress_price_change@;
    if !columns_in_range(user, stress_price_change, cols) {
        return Err(ErrorCode::Overflow);
    }
    // the soonest maturity
    let mut tmin: u64 = t[0];
    let mut k: usize = 1;
    while k < n
        invariant
            n == t.len(),
            1 <= k <= n,
            tmin == seq_min(t@, k as int),
        decreases n - k,
    {
        proof {
            lemma_seq_min_step(t@, k as int);
        }
        if t[k] < tmin {
            tmin = t[k];
        }
        k += 1;
    }
    let premium = checked_dots(user, t, price, tmin);
    let intrinsic_sums = checked_dots(user, t, intrinsic, tmin);
    let (net_premium, maturing_premium_sum) = match premium {
        Some(p) => p,
        None => {
            return Err(ErrorCode::Overflow);
        },
    };
    let (net_intrinsic, maturing_intrinsic_sum) = match intrinsic_sums {
        Some(p) => p,
        None => {
            return Err(ErrorCode::Overflow);
        },
    };
    proof {
        lemma_vec_dot_bounded(u, t@, price@, tmin as int, n as int);
        lemma_vec_dot_bounded(u, t@, intrinsic@, tmin as int, n as int);
    }
    let changes = row_times_matrix(user, stress_price_change, cols);
    let mut stress_result: i64 = changes[0];
    let mut j: usize = 1;
    while j < cols
        invariant
            changes@.len() == cols,
            cols == m[0]@.len(),
            n == u.len(),
            1 <= j <= cols,
            forall|b: int| 0 <= b < cols ==> #[trigger] changes@[b] == col_dot(u, m, b, n as int),
            stress_result == min_col(u, m, j as int),
        decreases cols - j,
    {
        if changes[j] < stress_result {
            stress_result = changes[j];
        }
        j += 1;
    }
    let maturing_premium = weighted(maturing_premium_sum, tmin);
    let maturing_liquidity = weighted(maturing_intrinsic_sum, tmin);
    Ok(
        MarginParts {
            stress_result,
            net_intrinsic,
            net_premium,
            tmin,
            maturing_intrinsic: maturing_intrinsic_sum,
            maturing_premium,
            maturing_liquidity,
        },
    )
}

/// The margin requirement of the positions `user` (signed quantities, one per
/// instrument). `t` holds each instrument's time to maturity in seconds,
/// `price` and `intrinsic` its base price and intrinsic value, and
/// `stress_price_change` its price change in each stress scenario.
///
/// The result is the worst P&L over the scenarios plus the smaller of net
/// intrinsic value and net premium, capped at zero, plus the liquidity and
/// premium add-ons of the instruments that expire soonest (every instrument
/// tied at the minimum counts). It is never positive.
pub fn margin_function(
    user: Vec<i64>,
    t: &Vec<u64>,
    price: &Vec<u64>,
    intrinsic: &Vec<u64>,
    stress_price_change: &Vec<Vec<i64>>,
) -> (r: Result<i64, ErrorCode>)
    ensures
        ({
            let (u, m) = (user@, stress_price_change@);
            let agree = margin_lengths_agree(u, t@, price@, intrinsic@, m);
            let nonempty = u.len() > 0 && m[0]@.len() > 0;
            &&& !agree <==> r == Err::<i64, ErrorCode>(ErrorCode::LengthMismatch)
            &&& (agree && !nonempty) <==> r == Err::<i64, ErrorCode>(ErrorCode::EmptyInput)
            &&& (agree && nonempty && !is_rectangular(m)) <==> r == Err::<i64, ErrorCode>(
                ErrorCode::RaggedMatrix,
            )
            &&& (agree && nonempty && is_rectangular(m) && !margin_in_range(
                u,
                t@,
                price@,
                intrinsic@,
                m,
            )) <==> r == Err::<i64, ErrorCode>(ErrorCode::Overflow)
            &&& (agree && nonempty && is_rectangular(m) && margin_in_range(
                u,
                t@,
                price@,
                intrinsic@,
                m,
            )) <==> r is Ok
            &&& r is Ok ==> r->Ok_0 == margin_value(u, t@, price@, intrinsic@, m)
        }),
        r == margin_outcome(user@, t@, price@, intrinsic@, stress_price_change@),
        r is Ok ==> r->Ok_0 <= 0,
{
    let ghost u = user@;
    let ghost m = stress_price_change@;
    let p = match margin_parts(&user, t, price, intrinsic, stress_price_change) {
        Ok(p) => p,
        Err(e) => {
            return Err(e);
        },
    };
    proof {
        lemma_margin_nonpositive(u, t@, price@, intrinsic@, m);
    }
    let stress_result = p.stress_result;
    let net_intrinsic = p.net_intrinsic;
    let net_premium = p.net_premium;
    let maturing_premium = p.maturing_premium;
    let maturing_liquidity = p.maturing_liquidity;
    let sr = stress_result as i128;
    let floor = if net_intrinsic < net_premium { net_intrinsic } else { net_premium };
    let margin_1 = if sr + floor < 0 { sr + floor } else { 0 };
    let margin_2 = if maturing_liquidity < net_intrinsic && maturing_liquidity < 0 {
        maturing_liquidity - net_intrinsic
    } else {
        0
    };
    let margin_3 = if maturing_premium < 0 { maturing_premium } else { 0 };
    let total = margin_1 + margin_2 + margin_3;
    assert(total == margin_value(u, t@, price@, intrinsic@, m));
    if total < i64::MIN as i128 {
        return Err(ErrorCode::Overflow);
    }
    Ok(total as i64)
}

/// The sum of the first `n` quantities.
pub open spec fn qty_sum(u: Seq<i64>, n: int) -> int
    decreases n,
{
    if n <= 0 {
        0
    } else {
        qty_sum(u, n - 1) + u[n - 1]
    }
}

/// The sum of the first `n` absolute quantities.
pub open spec fn qty_abs(u: Seq<i64>, n: int) -> int
    decreases n,
{
    if n <= 0 {
        0
    } else {
        qty_abs(u, n - 1) + abs(u[n - 1] as int)
    }
}

/// A value per unit of margin at fixed-point scale, rounded toward zero;
/// `None` when the margin is zero.
pub open spec fn leverage(value: int, total_margin: int) -> Option<int> {
    if total_margin == 0 {
        None
    } else if total_margin > 0 {
        Some(trunc_div(value * (DECIMAL_SCALE as int), total_margin))
    } else {
        Some(-trunc_div(value * (DECIMAL_SCALE as int), -total_margin))
    }
}

/// A margin computation with its statistics.
pub struct MarginFunctionResult {
    /// Net contract position.
    pub net_qty: i64,
    /// Gross contract position.
    pub notional_qty: i64,
    /// Net position valued at the spot.
    pub net: i64,
    /// Gross position valued at the spot.
    pub notional: i64,
    /// Worst P&L over the stress scenarios.
    pub stress_result: i64,
    pub net_intrinsic: i64,
    pub net_premium: i64,
    /// Intrinsic value of the soonest-expiring positions, unweighted.
    pub maturing_net_intrinsic: i64,
    /// Premium add-on base of the soonest-expiring positions.
    pub maturing_premium: i64,
    /// Liquidity add-on base of the soonest-expiring positions.
    pub maturing_liquidity: i64,
    pub total_margin: i64,
    /// Net position per unit of margin; `None` for a zero margin.
    pub net_leverage: Option<i128>,
    /// Gross position per unit of margin; `None` for a zero margin.
    pub notional_leverage: Option<i128>,
}

/// Whether the statistics of a margin computation fit in `i64`.
pub open spec fn stats_in_range(
    u: Seq<i64>,
    spot: int,
    t: Seq<u64>,
    price: Seq<u64>,
    intrinsic: Seq<u64>,
    m: Seq<Vec<i64>>,
) -> bool {
    let n = u.len() as int;
    let tmin = seq_min(t, n);
    &&& qty_abs(u, n) <= i64::MAX
    &&& qty_abs(u, n) * spot <= i64::MAX
    &&& abs(maturing_weighted(maturing_dot(u, t, price, tmin, n), tmin)) <= i64::MAX
    &&& abs(maturing_weighted(maturing_dot(u, t, intrinsic, tmin, n), tmin)) <= i64::MAX
}

proof fn lemma_qty_bounds(u: Seq<i64>, a: int, b: int)
    requires
        0 <= a <= b,
    ensures
        abs(qty_sum(u, a)) <= qty_abs(u, a),
        qty_abs(u, a) <= qty_abs(u, b),
        qty_abs(u, a) >= 0,
    decreases b,
{
    if b > 0 {
        if a == b {
            lemma_qty_bounds(u, a - 1, b - 1);
        } else {
            lemma_qty_bounds(u, a, b - 1);
        }
    }
}

/// `value * DECIMAL_SCALE / total`, rounded toward zero; `None` for a zero total.
fn leverage_of(value: i64, total: i64) -> (r: Option<i128>)
    ensures
        r == (match leverage(value as int, total as int) {
            Some(x) => Some(x as i128),
            None => None::<i128>,
        }),
        r is Some ==> r->Some_0 == leverage(value as int, total as int)->Some_0,
{
    if total == 0 {
        return None;
    }
    assert(-0x8000_0000_0000_0000 * 1_000_000 <= (value as int) * 1_000_000 <= 0x7fff_ffff_ffff_ffff
        * 1_000_000) by (nonlinear_arith)
        requires
            -0x8000_0000_0000_0000 <= value <= 0x7fff_ffff_ffff_ffff,
    ;
    let num: i128 = (value as i128) * (DECIMAL_SCALE as i128);
    let den: i128 = if total > 0 { total as i128 } else { -(total as i128) };
    let q: i128 = if num >= 0 { num / den } else { -((-num) / den) };
    proof {
        assert(0 <= (if num >= 0 { num as int } else { -num as int }) / (den as int) <= (if num >= 0 {
            num as int
        } else {
            -num as int
        })) by (nonlinear_arith)
            requires
                den >= 1,
        ;
    }
    if total > 0 {
        Some(q)
    } else {
        Some(-q)
    }
}

/// The margin computation of `margin_function` with its statistics: net and
/// gross quantities and their values at `spot`, each part of the margin, and
/// the leverage of the net and gross positions.
pub fn _margin_function(
    user: Vec<i64>,
    spot: u64,
    t: &Vec<u64>,
    price: &Vec<u64>,
    intrinsic: &Vec<u64>,
    stress_price_change: &Vec<Vec<i64>>,
) -> (r: Result<MarginFunctionResult, ErrorCode>)
    ensures
        ({
            let (u, m) = (user@, stress_price_change@);
            let n = u.len() as int;
            let agree = margin_lengths_agree(u, t@, price@, intrinsic@, m);
            let nonempty = u.len() > 0 && m[0]@.len() > 0;
            let shaped = agree && nonempty && is_rectangular(m);
            let in_range = margin_in_range(u, t@, price@, intrinsic@, m) && stats_in_range(
                u,
                spot as int,
                t@,
                price@,
                intrinsic@,
                m,
            );
            &&& !agree <==> r == Err::<MarginFunctionResult, ErrorCode>(ErrorCode::LengthMismatch)
            &&& (agree && !nonempty) <==> r == Err::<MarginFunctionResult, ErrorCode>(
                ErrorCode::EmptyInput,
            )
            &&& (agree && nonempty && !is_rectangular(m)) <==> r == Err::<
                MarginFunctionResult,
                ErrorCode,
            >(ErrorCode::RaggedMatrix)
            &&& (shaped && !in_range) <==> r == Err::<MarginFunctionResult, ErrorCode>(
                ErrorCode::Overflow,
            )
            &&& (shaped && in_range) <==> r is Ok
            &&& r is Ok ==> {
                let res = r->Ok_0;
                let tmin = seq_min(t@, n);
                &&& res.net_qty == qty_sum(u, n)
                &&& res.notional_qty == qty_abs(u, n)
                &&& res.net == qty_sum(u, n) * spot
                &&& res.notional == qty_abs(u, n) * spot
                &&& res.stress_result == min_col(u, m, m[0]@.len() as int)
                &&& res.net_intrinsic == vec_dot(u, intrinsic@, n)
                &&& res.net_premium == vec_dot(u, price@, n)
                &&& res.maturing_net_intrinsic == maturing_dot(u, t@, intrinsic@, tmin, n)
                &&& res.maturing_premium == maturing_weighted(maturing_dot(u, t@, price@, tmin, n), tmin)
                &&& res.maturing_liquidity == maturing_weighted(
                    maturing_dot(u, t@, intrinsic@, tmin, n),
                    tmin,
                )
                &&& res.total_margin == margin_value(u, t@, price@, intrinsic@, m)
                &&& res.total_margin <= 0
                &&& res.net_leverage == (match leverage(res.net as int, res.total_margin as int) {
                    Some(x) => Some(x as i128),
                    None => None::<i128>,
                })
                &&& res.notional_leverage == (match leverage(
                    res.notional as int,
                    res.total_margin as int,
                ) {
                    Some(x) => Some(x as i128),
                    None => None::<i128>,
                })
            }
        }),
{
    let ghost u = user@;
    let ghost m = stress_price_change@;
    let p = match margin_parts(&user, t, price, intrinsic, stress_price_change) {
        Ok(p) => p,
        Err(e) => {
            return Err(e);
        },
    };
    let n = user.len();
    let mut net_qty: i128 = 0;
    let mut notional_qty: i128 = 0;
    let mut i: usize = 0;
    while i < n
        invariant
            n == u.len(),
            u == user@,
            i <= n,
            net_qty == qty_sum(u, i as int),
            notional_qty == qty_abs(u, i as int),
            notional_qty <= i64::MAX,
            m == stress_price_change@,
            margin_lengths_agree(u, t@, price@, intrinsic@, m),
            u.len() > 0 && m[0]@.len() > 0,
            is_rectangular(m),
        decreases n - i,
    {
        let x = user[i] as i128;
        notional_qty = notional_qty + (if x >= 0 { x } else { -x });
        proof {
            lemma_qty_bounds(u, i as int + 1, i as int + 1);
        }
        if notional_qty > i64::MAX as i128 {
            proof {
                lemma_qty_bounds(u, i as int + 1, n as int);
            }
            return Err(ErrorCode::Overflow);
        }
        net_qty = net_qty + x;
        i += 1;
    }
    proof {
        lemma_qty_bounds(u, n as int, n as int);
    }
    assert((notional_qty as int) * (spot as int) <= 0x7fff_ffff_ffff_ffff * 0xffff_ffff_ffff_ffff) by (nonlinear_arith)
        requires
            0 <= notional_qty <= 0x7fff_ffff_ffff_ffff,
            spot <= 0xffff_ffff_ffff_ffff,
    ;
    let notional: i128 = notional_qty * (spot as i128);
    if notional > i64::MAX as i128 {
        return Err(ErrorCode::Overflow);
    }
    assert(abs((net_qty as int) * (spot as int)) <= (notional_qty as int) * (spot as int)) by (nonlinear_arith)
        requires
            abs(net_qty as int) <= notional_qty,
            spot >= 0,
    ;
    let net: i128 = net_qty * (spot as i128);
    if p.maturing_premium > i64::MAX as i128 || p.maturing_premium < -(i64::MAX as i128)
        || p.maturing_liquidity > i64::MAX as i128 || p.maturing_liquidity < -(i64::MAX as i128) {
        return Err(ErrorCode::Overflow);
    }
    let sr = p.stress_result as i128;
    let floor = if p.net_intrinsic < p.net_premium { p.net_intrinsic } else { p.net_premium };
    let margin_1 = if sr + floor < 0 { sr + floor } else { 0 };
    let margin_2 = if p.maturing_liquidity < p.net_intrinsic && p.maturing_liquidity < 0 {
        p.maturing_liquidity - p.net_intrinsic
    } else {
        0
    };
    let margin_3 = if p.maturing_premium < 0 { p.maturing_premium } else { 0 };
    let total = margin_1 + margin_2 + margin_3;
    assert(total == margin_value(u, t@, price@, intrinsic@, m));
    if total < i64::MIN as i128 {
        return Err(ErrorCode::Overflow);
    }
    proof {
        lemma_margin_nonpositive(u, t@, price@, intrinsic@, m);
    }
    let total_margin = total as i64;
    let net_leverage = leverage_of(net as i64, total_margin);
    let notional_leverage = leverage_of(notional as i64, total_margin);
    Ok(
        MarginFunctionResult {
            net_qty: net_qty as i64,
            notional_qty: notional_qty as i64,
            net: net as i64,
            notional: notional as i64,
            stress_result: p.stress_result,
            net_intrinsic: p.net_intrinsic as i64,
            net_premium: p.net_premium as i64,
            maturing_net_intrinsic: p.maturing_intrinsic as i64,
            maturing_premium: p.maturing_premium as i64,
            maturing_liquidity: p.maturing_liquidity as i64,
            total_margin,
            net_leverage,
            notional_leverage,
        },
    )
}

/// The collateral to hold back for a margin result: its deficit, or zero.
pub fn amount_to_reserve(margin: i64) -> (r: u64)
    ensures
        r == (if margin < 0 { -margin } else { 0 }),
{
    if margin < 0 {
        (-(margin as i128)) as u64
    } else {
        0
    }
}

/// The sum of the first `n` entries of `v`.
pub open spec fn sum_u64(v: Seq<u64>, n: int) -> int
    decreases n,
{
    if n <= 0 {
        0
    } else {
        sum_u64(v, n - 1) + v[n - 1]
    }
}

/// Whether the collateral `margin` covers the reserves held for every asset.
pub fn is_margin_sufficient(margin: u64, amount_to_reserve: &[u64]) -> (r: bool)
    ensures
        r <==> margin >= sum_u64(amount_to_reserve@, amount_to_reserve@.len() as int),
{
    let n = amount_to_reserve.len();
    let mut total: u128 = 0;
    let mut i: usize = 0;
    while i < n
        invariant
            n == amount_to_reserve@.len(),
            i <= n,
            total == sum_u64(amount_to_reserve@, i as int),
            total <= i * 0xffff_ffff_ffff_ffff,
            i <= usize::MAX,
        decreases n - i,
    {
        assert(total + amount_to_reserve@[i as int] <= (i + 1) * 0xffff_ffff_ffff_ffff) by (nonlinear_arith)
            requires
                total <= i * 0xffff_ffff_ffff_ffff,
                amount_to_reserve@[i as int] <= 0xffff_ffff_ffff_ffff,
        ;
        assert((i + 1) * 0xffff_ffff_ffff_ffff <= 0x1_0000_0000_0000_0000 * 0xffff_ffff_ffff_ffff) by (nonlinear_arith)
            requires
                i < 0x1_0000_0000_0000_0000,
        ;
        total = total + amount_to_reserve[i] as u128;
        i += 1;
    }
    margin as u128 >= total
}

} // verus!
