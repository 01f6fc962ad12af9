//! Windowed usage statistics and daily cost totals over a sequence of usage
//! events.
use vstd::prelude::*;
use crate::clock::{day_number, day_of};
use crate::models::ApiUsage;

verus! {

/// A quantity summed over the events of a window.
pub ghost enum Measure {
    Cost,
    Tokens,
    Requests,
    Errors,
    Latency,
    Timed,
}

/// The value an event contributes to a measure: its cost in cents, its total
/// tokens, its request and error counts, its latency in milliseconds (0 when
/// absent), and 1 when it has a latency at all.
pub open spec fn measure(e: ApiUsage, m: Measure) -> int {
    match m {
        Measure::Cost => e.cost as int,
        Measure::Tokens => e.total_tokens as int,
        Measure::Requests => e.requests as int,
        Measure::Errors => e.errors as int,
        Measure::Latency => match e.response_time_ms {
            Some(t) => t as int,
            None => 0,
        },
        Measure::Timed => if e.response_time_ms is Some {
            1
        } else {
            0
        },
    }
}

/// Whether an event belongs to a user's window starting at `since`.
pub open spec fn in_window(e: ApiUsage, user_id: u128, since: i64) -> bool {
    e.user_id == user_id && e.timestamp >= since
}

/// The sum of a measure over the events of a user's window.
pub open spec fn tally(events: Seq<ApiUsage>, user_id: u128, since: i64, m: Measure) -> int
    decreases events.len(),
{
    if events.len() == 0 {
        0
    } else {
        tally(events.drop_last(), user_id, since, m) + if in_window(events.last(), user_id, since) {
            measure(events.last(), m)
        } else {
            0
        }
    }
}

/// Every event satisfies the stored-event invariants.
pub open spec fn all_well_formed(events: Seq<ApiUsage>) -> bool {
    forall|i: int| 0 <= i < events.len() ==> (#[trigger] events[i]).well_formed()
}

/// Summary statistics of a user's usage over a window.
#[derive(Debug, Clone, Copy, PartialEq, Eq)]
pub struct UsageStats {
    /// Cents.
    pub total_cost: u128,
    pub total_tokens: u128,
    pub total_requests: u128,
    pub total_errors: u128,
    /// Errors per request in hundredths of a percent (10000 is 100%), rounded
    /// down; 0 when there are no requests.
    pub error_rate: u32,
    /// Mean latency in milliseconds, rounded down, over the events that have
    /// one; `None` when none has.
    pub avg_response_time: Option<u64>,
}

/// The statistics of a user's window, as fixed by the window's tallies.
pub open spec fn stats_of(events: Seq<ApiUsage>, user_id: u128, since: i64, r: UsageStats) -> bool {
    let requests = tally(events, user_id, since, Measure::Requests);
    let errors = tally(events, user_id, since, Measure::Errors);
    let timed = tally(events, user_id, since, Measure::Timed);
    &&& r.total_cost == tally(events, user_id, since, Measure::Cost)
    &&& r.total_tokens == tally(events, user_id, since, Measure::Tokens)
    &&& r.total_requests == requests
    &&& r.total_errors == errors
    &&& r.error_rate == if requests > 0 {
        errors * 10000 / requests
    } else {
        0
    }
    &&& r.avg_response_time == if timed > 0 {
        Some((tally(events, user_id, since, Measure::Latency) / timed) as u64)
    } else {
        None
    }
}

proof fn lemma_tally_empty(events: Seq<ApiUsage>, user_id: u128, since: i64, m: Measure)
    requires
        forall|i: int| 0 <= i < events.len() ==> !in_window(#[trigger] events[i], user_id, since),
    ensures
        tally(events, user_id, since, m) == 0,
    decreases events.len(),
{
    if events.len() > 0 {
        let rest = events.drop_last();
        assert forall|i: int| 0 <= i < rest.len() implies !in_window(#[trigger] rest[i], user_id, since) by {
            assert(rest[i] == events[i]);
        }
        lemma_tally_empty(rest, user_id, since, m);
    }
}

/// Statistics over a window without events are all zero, with an error rate
/// of zero and no latency: nothing is divided by zero.
pub proof fn lemma_empty_window_is_zero(
    events: Seq<ApiUsage>,
    user_id: u128,
    since: i64,
    r: UsageStats,
)
    requires
        forall|i: int| 0 <= i < events.len() ==> !in_window(#[trigger] events[i], user_id, since),
        stats_of(events, user_id, since, r),
    ensures
        r.total_cost == 0,
        r.total_tokens == 0,
        r.total_requests == 0,
        r.total_errors == 0,
        r.error_rate == 0,
        r.avg_response_time is None,
{
    lemma_tally_empty(events, user_id, since, Measure::Cost);
    lemma_tally_empty(events, user_id, since, Measure::Tokens);
    lemma_tally_empty(events, user_id, since, Measure::Requests);
    lemma_tally_empty(events, user_id, since, Measure::Errors);
    lemma_tally_empty(events, user_id, since, Measure::Timed);
}

proof fn lemma_tally_step(events: Seq<ApiUsage>, user_id: u128, since: i64, i: int)
    requires
        0 <= i < events.len(),
    ensures
        forall|m: Measure|
            #[trigger] tally(events.subrange(0, i + 1), user_id, since, m) == tally(
                events.subrange(0, i),
                user_id,
                since,
                m,
            ) + if in_window(events[i], user_id, since) {
                measure(events[i], m)
            } else {
                0
            },
{
    assert(events.subrange(0, i + 1).drop_last() =~= events.subrange(0, i));
}

/// Sums cost, tokens, requests and errors over the events of `user_id` with a
/// timestamp at or after `since`, and derives the error rate and the mean
/// latency. An empty window gives all zeros and no latency.
pub fn calculate_stats(events: &Vec<ApiUsage>, user_id: u128, since: i64) -> (r: UsageStats)
    requires
        all_well_formed(events@),
    ensures
        stats_of(events@, user_id, since, r),
{
    let mut cost: u128 = 0;
    let mut tokens: u128 = 0;
    let mut requests: u128 = 0;
    let mut errors: u128 = 0;
    let mut latency: u128 = 0;
    let mut timed: u128 = 0;
    let mut i: usize = 0;
    assert(events@.subrange(0, 0) =~= Seq::<ApiUsage>::empty());
    while i < events.len()
        invariant
            i <= events.len(),
            all_well_formed(events@),
            cost == tally(events@.subrange(0, i as int), user_id, since, Measure::Cost),
            tokens == tally(events@.subrange(0, i as int), user_id, since, Measure::Tokens),
            requests == tally(events@.subrange(0, i as int), user_id, since, Measure::Requests),
            errors == tally(events@.subrange(0, i as int), user_id, since, Measure::Errors),
            latency == tally(events@.subrange(0, i as int), user_id, since, Measure::Latency),
            timed == tally(events@.subrange(0, i as int), user_id, since, Measure::Timed),
            cost <= i * 0xffff_ffff_ffff_ffffu128,
            tokens <= i * 0x7fff_ffffu128,
            errors <= requests <= i,
            latency <= timed * 0x7fff_ffffu128,
            timed <= i,
        decreases events.len() - i,
    {
        proof { lemma_tally_step(events@, user_id, since, i as int); }
        let e = &events[i];
        assert(e.well_formed());
        if e.user_id == user_id && e.timestamp >= since {
            cost = cost + e.cost as u128;
            tokens = tokens + e.total_tokens as u128;
            requests = requests + e.requests as u128;
            errors = errors + e.errors as u128;
            match e.response_time_ms {
                Some(t) => {
                    latency = latency + t as u128;
                    timed = timed + 1;
                },
                None => {},
            }
        }
        i = i + 1;
    }
    assert(events@.subrange(0, events.len() as int) =~= events@);
    let error_rate: u32 = if requests > 0 {
        assert((errors * 10000) as int / (requests as int) <= 10000) by (nonlinear_arith)
            requires
                errors <= requests,
                requests > 0,
        ;
        (errors * 10000 / requests) as u32
    } else {
        0
    };
    let avg_response_time = if timed > 0 {
        assert(latency as int / (timed as int) <= 0x7fff_ffff) by (nonlinear_arith)
            requires
                latency <= timed * 0x7fff_ffffu128,
                timed > 0,
        ;
        Some((latency / timed) as u64)
    } else {
        None
    };
    UsageStats {
        total_cost: cost,
        total_tokens: tokens,
        total_requests: requests,
        total_errors: errors,
        error_rate,
        avg_response_time,
    }
}

/// Whether an event counts toward a daily cost series: it belongs to the
/// user, is not older than `since`, and is for the given key when one is
/// given.
pub open spec fn counted(e: ApiUsage, user_id: u128, since: i64, key: Option<u128>) -> bool {
    &&& e.user_id == user_id
    &&& e.timestamp >= since
    &&& (key matches Some(k) ==> e.api_key_id == k)
}

/// The total cost in cents of the counted events on calendar day `day`.
pub open spec fn day_cost(
    events: Seq<ApiUsage>,
    user_id: u128,
    since: i64,
    key: Option<u128>,
    day: int,
) -> int
    decreases events.len(),
{
    if events.len() == 0 {
        0
    } else {
        day_cost(events.drop_last(), user_id, since, key, day) + if counted(
            events.last(),
            user_id,
            since,
            key,
        ) && day_of(events.last().timestamp as int) == day {
            events.last().cost as int
        } else {
            0
        }
    }
}

/// Whether some counted event falls on calendar day `day`.
pub open spec fn has_day(
    events: Seq<ApiUsage>,
    user_id: u128,
    since: i64,
    key: Option<u128>,
    day: int,
) -> bool {
    exists|j: int|
        0 <= j < events.len() && counted(#[trigger] events[j], user_id, since, key) && day_of(
            events[j].timestamp as int,
        ) == day
}

/// `s` lists, in strictly increasing day order, exactly the days that have
/// counted events, each with the total cost of those events.
pub open spec fn is_daily_totals(
    s: Seq<(i64, u128)>,
    events: Seq<ApiUsage>,
    user_id: u128,
    since: i64,
    key: Option<u128>,
) -> bool {
    &&& forall|a: int, b: int| 0 <= a < b < s.len() ==> s[a].0 < s[b].0
    &&& forall|a: int|
        0 <= a < s.len() ==> has_day(events, user_id, since, key, #[trigger] s[a].0 as int)
            && s[a].1 == day_cost(events, user_id, since, key, s[a].0 as int)
    &&& forall|d: int|
        has_day(events, user_id, since, key, d) ==> exists|a: int|
            0 <= a < s.len() && #[trigger] s[a].0 == d
}

proof fn lemma_day_cost_absent(
    events: Seq<ApiUsage>,
    user_id: u128,
    since: i64,
    key: Option<u128>,
    day: int,
)
    requires
        !has_day(events, user_id, since, key, day),
    ensures
        day_cost(events, user_id, since, key, day) == 0,
    decreases events.len(),
{
    if events.len() > 0 {
        let rest = events.drop_last();
        assert forall|j: int|
            0 <= j < rest.len() && counted(#[trigger] rest[j], user_id, since, key) implies day_of(
            rest[j].timestamp as int,
        ) != day by {
            assert(events[j] == rest[j]);
        }
        assert(!(counted(events.last(), user_id, since, key) && day_of(
            events.last().timestamp as int,
        ) == day) || has_day(events, user_id, since, key, day));
        lemma_day_cost_absent(rest, user_id, since, key, day);
    }
}

proof fn lemma_day_step(
    events: Seq<ApiUsage>,
    user_id: u128,
    since: i64,
    key: Option<u128>,
    i: int,
    day: int,
)
    requires
        0 <= i < events.len(),
    ensures
        day_cost(events.subrange(0, i + 1), user_id, since, key, day) == day_cost(
            events.subrange(0, i),
            user_id,
            since,
            key,
            day,
        ) + if counted(events[i], user_id, since, key) && day_of(events[i].timestamp as int)
            == day {
            events[i].cost as int
        } else {
            0
        },
        has_day(events.subrange(0, i + 1), user_id, since, key, day) <==> (has_day(
            events.subrange(0, i),
            user_id,
            since,
            key,
            day,
        ) || (counted(events[i], user_id, since, key) && day_of(events[i].timestamp as int)
            == day)),
{
    let longer = events.subrange(0, i + 1);
    let shorter = events.subrange(0, i);
    assert(longer.drop_last() =~= shorter);
    if has_day(longer, user_id, since, key, day) {
        let j = choose|j: int|
            0 <= j < longer.len() && counted(#[trigger] longer[j], user_id, since, key) && day_of(
                longer[j].timestamp as int,
            ) == day;
        if j < i {
            assert(shorter[j] == longer[j]);
        }
    }
    if has_day(shorter, user_id, since, key, day) {
        let j = choose|j: int|
            0 <= j < shorter.len() && counted(#[trigger] shorter[j], user_id, since, key) && day_of(
                shorter[j].timestamp as int,
            ) == day;
        assert(shorter[j] == longer[j]);
    }
    if counted(events[i], user_id, since, key) && day_of(events[i].timestamp as int) == day {
        assert(longer[i] == events[i]);
    }
}

/// Total cost per calendar day of the events of `user_id` at or after
/// `since`, restricted to one key when `key` is given, in increasing day
/// order.
pub fn daily_costs(events: &Vec<ApiUsage>, user_id: u128, since: i64, key: Option<u128>) -> (r: Vec<
    (i64, u128),
>)
    ensures
        is_daily_totals(r@, events@, user_id, since, key),
{
    let mut out: Vec<(i64, u128)> = Vec::new();
    let mut i: usize = 0;
    assert(events@.subrange(0, 0) =~= Seq::<ApiUsage>::empty());
    while i < events.len()
        invariant
            i <= events.len(),
            is_daily_totals(out@, events@.subrange(0, i as int), user_id, since, key),
            forall|a: int| 0 <= a < out.len() ==> #[trigger] out@[a].1 <= i * 0xffff_ffff_ffff_ffffu128,
        decreases events.len() - i,
    {
        let ghost before = events@.subrange(0, i as int);
        let ghost after = events@.subrange(0, i as int + 1);
        let ghost old_out = out@;
        let e = &events[i];
        let wanted = match key {
            Some(k) => e.api_key_id == k,
            None => true,
        };
        if e.user_id == user_id && e.timestamp >= since && wanted {
            let d = day_number(e.timestamp);
            let mut p: usize = 0;
            while p < out.len() && out[p].0 < d
                invariant
                    p <= out.len(),
                    out@ == old_out,
                    forall|a: int| 0 <= a < p ==> #[trigger] out@[a].0 < d,
                decreases out.len() - p,
            {
                p = p + 1;
            }
            if p < out.len() && out[p].0 == d {
                let total = out[p].1 + e.cost as u128;
                out.set(p, (d, total));
                proof {
                    assert forall|a: int| 0 <= a < out.len() implies has_day(
                        after,
                        user_id,
                        since,
                        key,
                        #[trigger] out@[a].0 as int,
                    ) && out@[a].1 == day_cost(after, user_id, since, key, out@[a].0 as int) by {
                        lemma_day_step(events@, user_id, since, key, i as int, out@[a].0 as int);
                    }
                    assert forall|dd: int| has_day(after, user_id, since, key, dd) implies exists|
                        a: int,
                    | 0 <= a < out.len() && #[trigger] out@[a].0 == dd by {
                        lemma_day_step(events@, user_id, since, key, i as int, dd);
                        if dd == d {
                            assert(out@[p as int].0 == dd);
                        } else {
                            let a = choose|a: int| 0 <= a < old_out.len() && #[trigger] old_out[a].0 == dd;
                            assert(out@[a].0 == dd);
                        }
                    }
                }
            } else {
                proof {
                    if has_day(before, user_id, since, key, d as int) {
                        let a = choose|a: int| 0 <= a < old_out.len() && #[trigger] old_out[a].0 == d;
                        if a < p {
                        } else {
                            assert(old_out[p as int].0 <= old_out[a].0);
                        }
                    }
                    lemma_day_cost_absent(before, user_id, since, key, d as int);
                }
                out.insert(p, (d, e.cost as u128));
                proof {
                    assert forall|a: int, b: int| 0 <= a < b < out.len() implies out@[a].0
                        < out@[b].0 by {
                        if b < p {
                        } else if a > p {
                            assert(old_out[a - 1].0 < old_out[b - 1].0);
                        } else if a == p {
                            assert(old_out[p as int].0 <= old_out[b - 1].0);
                        } else {
                            if b == p {
                            } else {
                                assert(old_out[a].0 < old_out[b - 1].0);
                            }
                        }
                    }
                    assert forall|a: int| 0 <= a < out.len() implies has_day(
                        after,
                        user_id,
                        since,
                        key,
                        #[trigger] out@[a].0 as int,
                    ) && out@[a].1 == day_cost(after, user_id, since, key, out@[a].0 as int) by {
                        lemma_day_step(events@, user_id, since, key, i as int, out@[a].0 as int);
                        if a < p {
                            assert(out@[a] == old_out[a]);
                        } else if a > p {
                            assert(out@[a] == old_out[a - 1]);
                        }
                    }
                    assert forall|dd: int| has_day(after, user_id, since, key, dd) implies exists|
                        a: int,
                    | 0 <= a < out.len() && #[trigger] out@[a].0 == dd by {
                        lemma_day_step(events@, user_id, since, key, i as int, dd);
                        if dd == d {
                            assert(out@[p as int].0 == dd);
                        } else {
                            let a = choose|a: int| 0 <= a < old_out.len() && #[trigger] old_out[a].0 == dd;
                            if a < p {
                                assert(out@[a].0 == dd);
                            } else {
                                assert(out@[a + 1].0 == dd);
                            }
                        }
                    }
                    assert forall|a: int| 0 <= a < out.len() implies #[trigger] out@[a].1 <= (i + 1)
                        * 0xffff_ffff_ffff_ffffu128 by {
                        if a < p {
                            assert(out@[a] == old_out[a]);
                        } else if a > p {
                            assert(out@[a] == old_out[a - 1]);
                        }
                    }
                }
            }
        } else {
            proof {
                assert forall|a: int| 0 <= a < out.len() implies has_day(
                    after,
                    user_id,
                    since,
                    key,
                    #[trigger] out@[a].0 as int,
                ) && out@[a].1 == day_cost(after, user_id, since, key, out@[a].0 as int) by {
                    lemma_day_step(events@, user_id, since, key, i as int, out@[a].0 as int);
                }
                assert forall|dd: int| has_day(after, user_id, since, key, dd) implies exists|
                    a: int,
                | 0 <= a < out.len() && #[trigger] out@[a].0 == dd by {
                    lemma_day_step(events@, user_id, since, key, i as int, dd);
                }
            }
        }
        i = i + 1;
    }
    assert(events@.subrange(0, events.len() as int) =~= events@);
    out
}

/// How many events of key `api_key_id` are timestamped at or after `since`.
pub open spec fn key_requests(events: Seq<ApiUsage>, api_key_id: u128, since: i64) -> int
    decreases events.len(),
{
    if events.len() == 0 {
        0
    } else {
        key_requests(events.drop_last(), api_key_id, since) + if events.last().api_key_id
            == api_key_id && events.last().timestamp >= since {
            1int
        } else {
            0
        }
    }
}

/// The total cost in cents of the events of key `api_key_id` timestamped at
/// or after `since`.
pub open spec fn key_cost(events: Seq<ApiUsage>, api_key_id: u128, since: i64) -> int
    decreases events.len(),
{
    if events.len() == 0 {
        0
    } else {
        key_cost(events.drop_last(), api_key_id, since) + if events.last().api_key_id == api_key_id
            && events.last().timestamp >= since {
            events.last().cost as int
        } else {
            0
        }
    }
}

/// Usage of one pricing key, overall and since the start of today.
#[derive(Debug, Clone, Copy, PartialEq, Eq)]
pub struct ApiKeyUsageStats {
    pub total_requests: u128,
    /// Cents.
    pub total_cost: u128,
    pub requests_today: u128,
    /// Cents.
    pub cost_today: u128,
}

/// Counts and costs the events of key `api_key_id`, all of them and those at
/// or after `today_start`.
pub fn key_usage_stats(events: &Vec<ApiUsage>, api_key_id: u128, today_start: i64) -> (r:
    ApiKeyUsageStats)
    ensures
        r.total_requests == key_requests(events@, api_key_id, i64::MIN),
        r.total_cost == key_cost(events@, api_key_id, i64::MIN),
        r.requests_today == key_requests(events@, api_key_id, today_start),
        r.cost_today == key_cost(events@, api_key_id, today_start),
{
    let mut r = ApiKeyUsageStats { total_requests: 0, total_cost: 0, requests_today: 0, cost_today: 0 };
    let mut i: usize = 0;
    assert(events@.subrange(0, 0) =~= Seq::<ApiUsage>::empty());
    while i < events.len()
        invariant
            i <= events.len(),
            r.total_requests == key_requests(events@.subrange(0, i as int), api_key_id, i64::MIN),
            r.total_cost == key_cost(events@.subrange(0, i as int), api_key_id, i64::MIN),
            r.requests_today == key_requests(events@.subrange(0, i as int), api_key_id, today_start),
            r.cost_today == key_cost(events@.subrange(0, i as int), api_key_id, today_start),
            r.requests_today <= r.total_requests <= i,
            r.cost_today <= r.total_cost <= i * 0xffff_ffff_ffff_ffffu128,
        decreases events.len() - i,
    {
        assert(events@.subrange(0, i + 1).drop_last() =~= events@.subrange(0, i as int));
        let e = &events[i];
        if e.api_key_id == api_key_id {
            r.total_requests = r.total_requests + 1;
            r.total_cost = r.total_cost + e.cost as u128;
            if e.timestamp >= today_start {
                r.requests_today = r.requests_today + 1;
                r.cost_today = r.cost_today + e.cost as u128;
            }
        }
        i = i + 1;
    }
    assert(events@.subrange(0, events.len() as int) =~= events@);
    r
}

} // verus!
