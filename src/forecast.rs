//! The forecast engine: a trend-adjusted moving average over daily cost
//! totals, with a confidence score that falls as the series grows volatile.
//!
//! Costs are whole cents and the confidence is in basis points, so every
//! quantity is an exact integer. With `n` days, total `S`, sum of squares
//! `Q`, and `R` and `O` the totals of the last and the first seven days:
//! the daily prediction is `S/n * R/O` (or `S/n` when `O` is zero) rounded
//! half up to a cent; the coefficient of variation is `sqrt(nQ - S^2) / S`
//! (population standard deviation over mean), taken as 1 when `S` is zero;
//! and the confidence is `min(1 - min(cv, 0.5), 0.95)`, rounded down to a
//! basis point.
use vstd::prelude::*;
use crate::errors::ApiError;

verus! {

/// Fewest distinct days of data a forecast needs.
pub const MIN_FORECAST_DAYS: usize = 7;

/// Days in the recent and in the older trend window.
pub const TREND_WINDOW: usize = 7;

/// Longest daily series the engine accepts.
pub const MAX_FORECAST_DAYS: usize = 366;

/// Largest daily total, in cents, the engine accepts.
pub const MAX_DAILY_COST: u128 = 1_000_000_000_000;

/// Basis points in one.
pub const BASIS: u32 = 10_000;

/// Lowest confidence, in basis points.
pub const CONFIDENCE_FLOOR: u32 = 5_000;

/// Highest confidence, in basis points.
pub const CONFIDENCE_CAP: u32 = 9_500;

/// Sum of a series.
pub open spec fn sum(s: Seq<u128>) -> int
    decreases s.len(),
{
    if s.len() == 0 {
        0
    } else {
        sum(s.drop_last()) + s.last()
    }
}

/// Sum of the squares of a series.
pub open spec fn sum_sq(s: Seq<u128>) -> int
    decreases s.len(),
{
    if s.len() == 0 {
        0
    } else {
        sum_sq(s.drop_last()) + s.last() * s.last()
    }
}

/// Total of the most recent trend window.
pub open spec fn recent_sum(s: Seq<u128>) -> int {
    sum(s.subrange(s.len() - TREND_WINDOW, s.len() as int))
}

/// Total of the oldest trend window.
pub open spec fn older_sum(s: Seq<u128>) -> int {
    sum(s.subrange(0, TREND_WINDOW as int))
}

/// `n * Q - S * S`: `n * n` times the population variance.
pub open spec fn spread(s: Seq<u128>) -> int {
    s.len() * sum_sq(s) - sum(s) * sum(s)
}

/// The predicted daily cost in cents: the mean daily cost scaled by the ratio
/// of the recent to the older window average (1 when the older window is all
/// zero), rounded half up.
pub open spec fn predicted_daily(s: Seq<u128>) -> int {
    let n = s.len() as int;
    let total = sum(s);
    let older = older_sum(s);
    if older > 0 {
        (2 * total * recent_sum(s) + n * older) / (2 * n * older)
    } else {
        (2 * total + n) / (2 * n)
    }
}

/// The least `k` from `from` up to 5000 with `k * total >= 10000 * sqrt(spread)`,
/// or 5000 when there is none.
pub open spec fn least_steady(total: int, spread: int, from: int) -> int
    decreases 5000 - from,
{
    if from >= 5000 {
        5000
    } else if (from * total) * (from * total) >= 100_000_000 * spread {
        from
    } else {
        least_steady(total, spread, from + 1)
    }
}

/// `min(cv, 0.5)` in basis points, the coefficient of variation rounded up.
pub open spec fn volatility_bp(s: Seq<u128>) -> int {
    if sum(s) == 0 {
        5000
    } else {
        least_steady(sum(s), spread(s), 0)
    }
}

/// The forecast confidence in basis points.
pub open spec fn confidence_bp(s: Seq<u128>) -> int {
    let c = BASIS - volatility_bp(s);
    if c > CONFIDENCE_CAP {
        CONFIDENCE_CAP as int
    } else {
        c
    }
}

/// A series short enough and with daily totals small enough that the engine
/// computes it exactly.
pub open spec fn series_in_range(s: Seq<u128>) -> bool {
    &&& s.len() <= MAX_FORECAST_DAYS
    &&& forall|i: int| 0 <= i < s.len() ==> s[i] <= MAX_DAILY_COST
}

/// A cost projection and how far to trust it.
#[derive(Debug, Clone, Copy, PartialEq, Eq)]
pub struct Forecast {
    /// Cents per day.
    pub daily: u128,
    /// Cents per week: seven days.
    pub weekly: u128,
    /// Cents per month: thirty days.
    pub monthly: u128,
    /// Basis points, between 5000 and 9500.
    pub confidence: u32,
}

/// The confidence of any cost series lies between 0.5 and 0.95.
pub proof fn lemma_confidence_bounded(s: Seq<u128>)
    ensures
        CONFIDENCE_FLOOR <= confidence_bp(s) <= CONFIDENCE_CAP,
{
    lemma_least_steady_bounds(sum(s), spread(s), 0);
}

/// A series of zero costs has no mean to measure volatility against, and gets
/// the lowest confidence, 0.5.
pub proof fn lemma_zero_series_confidence(s: Seq<u128>)
    requires
        forall|i: int| 0 <= i < s.len() ==> s[i] == 0,
    ensures
        confidence_bp(s) == CONFIDENCE_FLOOR,
{
    lemma_zero_sum(s);
}

proof fn lemma_zero_sum(s: Seq<u128>)
    requires
        forall|i: int| 0 <= i < s.len() ==> s[i] == 0,
    ensures
        sum(s) == 0,
    decreases s.len(),
{
    if s.len() > 0 {
        lemma_zero_sum(s.drop_last());
    }
}

proof fn lemma_least_steady_bounds(total: int, spread: int, from: int)
    requires
        0 <= from,
    ensures
        0 <= least_steady(total, spread, from) <= 5000,
    decreases 5000 - from,
{
    if from < 5000 && !((from * total) * (from * total) >= 100_000_000 * spread) {
        lemma_least_steady_bounds(total, spread, from + 1);
    }
}

proof fn lemma_prefix_sum(s: Seq<u128>, lo: int, i: int)
    requires
        0 <= lo <= i < s.len(),
    ensures
        sum(s.subrange(lo, i + 1)) == sum(s.subrange(lo, i)) + s[i],
        sum_sq(s.subrange(lo, i + 1)) == sum_sq(s.subrange(lo, i)) + s[i] * s[i],
{
    assert(s.subrange(lo, i + 1).drop_last() =~= s.subrange(lo, i));
}

/// Sum of `v[lo..hi]`.
fn range_sum(v: &Vec<u128>, lo: usize, hi: usize) -> (r: u128)
    requires
        lo <= hi <= v.len(),
        series_in_range(v@),
    ensures
        r == sum(v@.subrange(lo as int, hi as int)),
        r <= (hi - lo) * MAX_DAILY_COST,
{
    let mut acc: u128 = 0;
    let mut i = lo;
    assert(v@.subrange(lo as int, lo as int) =~= Seq::<u128>::empty());
    while i < hi
        invariant
            lo <= i <= hi <= v.len(),
            series_in_range(v@),
            acc == sum(v@.subrange(lo as int, i as int)),
            acc <= (i - lo) * MAX_DAILY_COST,
        decreases hi - i,
    {
        proof { lemma_prefix_sum(v@, lo as int, i as int); }
        acc = acc + v[i];
        i = i + 1;
    }
    acc
}

/// Sum of the squares of `v`.
fn square_sum(v: &Vec<u128>) -> (r: u128)
    requires
        series_in_range(v@),
    ensures
        r == sum_sq(v@),
        r <= v.len() * 1_000_000_000_000_000_000_000_000u128,
{
    let mut acc: u128 = 0;
    let mut i: usize = 0;
    assert(v@.subrange(0, 0) =~= Seq::<u128>::empty());
    while i < v.len()
        invariant
            i <= v.len(),
            series_in_range(v@),
            acc == sum_sq(v@.subrange(0, i as int)),
            acc <= i * 1_000_000_000_000_000_000_000_000u128,
        decreases v.len() - i,
    {
        proof { lemma_prefix_sum(v@, 0, i as int); }
        let x = v[i];
        assert(x * x <= 1_000_000_000_000_000_000_000_000u128) by (nonlinear_arith)
            requires
                x <= 1_000_000_000_000u128,
        ;
        acc = acc + x * x;
        i = i + 1;
    }
    assert(v@.subrange(0, v.len() as int) =~= v@);
    acc
}

/// The least `k` in `0..=5000` with `(k * total)^2 + 10^8 * total^2 >= 10^8 * n * q`,
/// or 5000: `volatility_bp` for a series with a non-zero total.
fn steady_point(total: u128, n: u128, sq: u128) -> (r: u32)
    requires
        total <= 366_000_000_000_000u128,
        n <= 366,
        sq <= 366_000_000_000_000_000_000_000_000u128,
    ensures
        r == least_steady(total as int, n * sq - total * total, 0),
{
    let ghost spread = n * sq - total * total;
    assert(total * total <= 133_956_000_000_000_000_000_000_000_000u128) by (nonlinear_arith)
        requires
            total <= 366_000_000_000_000u128,
    ;
    assert(n * sq <= 133_956_000_000_000_000_000_000_000_000u128) by (nonlinear_arith)
        requires
            n <= 366,
            sq <= 366_000_000_000_000_000_000_000_000u128,
    ;
    let base = 100_000_000 * (total * total);
    let target = 100_000_000 * (n * sq);
    let mut k: u32 = 0;
    while k < 5000
        invariant
            k <= 5000,
            total <= 366_000_000_000_000u128,
            base == 100_000_000 * (total * total),
            target == 100_000_000 * (n * sq),
            base <= 13_395_600_000_000_000_000_000_000_000_000_000_000u128,
            spread == n * sq - total * total,
            least_steady(total as int, spread, k as int) == least_steady(total as int, spread, 0),
        decreases 5000 - k,
    {
        assert(k * total <= 5000 * 366_000_000_000_000u128) by (nonlinear_arith)
            requires
                k < 5000,
                total <= 366_000_000_000_000u128,
        ;
        let kt = k as u128 * total;
        assert(kt * kt <= 3_348_900_000_000_000_000_000_000_000_000_000_000u128) by (nonlinear_arith)
            requires
                kt == k * total,
                k < 5000,
                total <= 366_000_000_000_000u128,
        ;
        if kt * kt + base >= target {
            assert((k * total) * (k * total) >= 100_000_000 * spread);
            return k;
        }
        k = k + 1;
    }
    k
}

/// Forecasts daily, weekly and monthly cost from a series of daily cost
/// totals in cents, oldest first.
///
/// Fails with `InsufficientData` when the series has fewer than seven days,
/// and with `Internal` when it is too long or holds a daily total too large
/// for exact arithmetic.
pub fn forecast_costs(costs: &Vec<u128>) -> (r: Result<Forecast, ApiError>)
    ensures
        costs.len() < MIN_FORECAST_DAYS <==> r matches Err(ApiError::InsufficientData(_)),
        costs.len() >= MIN_FORECAST_DAYS && !series_in_range(costs@) <==> r matches Err(
            ApiError::Internal(_),
        ),
        costs.len() >= MIN_FORECAST_DAYS && series_in_range(costs@) <==> r is Ok,
        r matches Ok(f) ==> {
            &&& f.daily == predicted_daily(costs@)
            &&& f.weekly == 7 * f.daily
            &&& f.monthly == 30 * f.daily
            &&& f.confidence == confidence_bp(costs@)
        },
{
    let n = costs.len();
    if n < MIN_FORECAST_DAYS {
        return Err(ApiError::InsufficientData(String::from_str("Need at least 7 days of data")));
    }
    if n > MAX_FORECAST_DAYS {
        return Err(ApiError::Internal(String::from_str("Cost series too long to forecast")));
    }
    let mut i: usize = 0;
    while i < n
        invariant
            n == costs.len(),
            MIN_FORECAST_DAYS <= n <= MAX_FORECAST_DAYS,
            i <= n,
            forall|j: int| 0 <= j < i ==> costs@[j] <= MAX_DAILY_COST,
        decreases n - i,
    {
        if costs[i] > MAX_DAILY_COST {
            assert(!series_in_range(costs@));
            return Err(ApiError::Internal(String::from_str("Daily cost too large to forecast")));
        }
        i = i + 1;
    }
    assert(costs@.subrange(0, n as int) =~= costs@);
    let total = range_sum(costs, 0, n);
    let recent = range_sum(costs, n - TREND_WINDOW, n);
    let older = range_sum(costs, 0, TREND_WINDOW);
    let sq = square_sum(costs);
    let nn = n as u128;
    let daily: u128 = if older > 0 {
        assert(2 * total * recent + nn * older <= 2 * (MAX_FORECAST_DAYS * MAX_DAILY_COST) * (7
            * MAX_DAILY_COST) + MAX_FORECAST_DAYS * (7 * MAX_DAILY_COST)) by (nonlinear_arith)
            requires
                total <= MAX_FORECAST_DAYS * MAX_DAILY_COST,
                recent <= 7 * MAX_DAILY_COST,
                older <= 7 * MAX_DAILY_COST,
                nn <= MAX_FORECAST_DAYS,
        ;
        assert(0 < 2 * nn * older <= 2 * 366 * 7_000_000_000_000u128) by (nonlinear_arith)
            requires
                7 <= nn <= 366,
                0 < older <= 7_000_000_000_000u128,
        ;
        (2 * total * recent + nn * older) / (2 * nn * older)
    } else {
        (2 * total + nn) / (2 * nn)
    };
    assert(daily <= 2 * (MAX_FORECAST_DAYS * MAX_DAILY_COST) * (7 * MAX_DAILY_COST) + MAX_FORECAST_DAYS * (7 * MAX_DAILY_COST)) by (nonlinear_arith)
        requires
            older > 0 ==> daily == (2 * total * recent + nn * older) / (2 * nn * older),
            older == 0 ==> daily == (2 * total + nn) / (2 * nn),
            total <= MAX_FORECAST_DAYS * MAX_DAILY_COST,
            recent <= 7 * MAX_DAILY_COST,
            older <= 7 * MAX_DAILY_COST,
            7 <= nn <= MAX_FORECAST_DAYS,
    ;
    let volatility: u32 = if total == 0 {
        5000
    } else {
        steady_point(total, nn, sq)
    };
    proof {
        lemma_least_steady_bounds(total as int, spread(costs@), 0);
    }
    let eased = BASIS - volatility;
    let confidence = if eased > CONFIDENCE_CAP {
        CONFIDENCE_CAP
    } else {
        eased
    };
    Ok(Forecast { daily, weekly: 7 * daily, monthly: 30 * daily, confidence })
}

} // verus!
