//! An in-memory usage store: an append-only ledger of usage events beside the
//! pricing keys they are charged under.
use vstd::prelude::*;
use crate::clock::{is_valid_timestamp, valid_timestamp};
use crate::errors::ApiError;
use crate::models::{ApiKey, ApiUsage};
use crate::stats::{all_well_formed, calculate_stats, daily_costs, is_daily_totals, stats_of, UsageStats};

verus! {

/// Whether `keys` holds an active key with id `id`.
pub open spec fn active_key(keys: Seq<ApiKey>, id: u128) -> bool {
    exists|i: int| 0 <= i < keys.len() && (#[trigger] keys[i]).id == id && keys[i].is_active
}

/// The events of one user, in the order they were stored.
pub open spec fn user_events(events: Seq<ApiUsage>, user_id: u128) -> Seq<ApiUsage>
    decreases events.len(),
{
    if events.len() == 0 {
        Seq::empty()
    } else if events.last().user_id == user_id {
        user_events(events.drop_last(), user_id).push(events.last())
    } else {
        user_events(events.drop_last(), user_id)
    }
}

/// Whether an event falls in a range query: the user's, timestamped within
/// `start..=end`, and for the given key when one is given.
pub open spec fn in_range(
    e: ApiUsage,
    user_id: u128,
    start: i64,
    end: i64,
    key: Option<u128>,
) -> bool {
    &&& e.user_id == user_id
    &&& start <= e.timestamp <= end
    &&& (key matches Some(k) ==> e.api_key_id == k)
}

/// The events a range query returns: those in range, most recently stored
/// first.
pub open spec fn range_events(
    events: Seq<ApiUsage>,
    user_id: u128,
    start: i64,
    end: i64,
    key: Option<u128>,
) -> Seq<ApiUsage>
    decreases events.len(),
{
    if events.len() == 0 {
        Seq::empty()
    } else if in_range(events.last(), user_id, start, end, key) {
        seq![events.last()] + range_events(events.drop_last(), user_id, start, end, key)
    } else {
        range_events(events.drop_last(), user_id, start, end, key)
    }
}

/// Storing an event of one user leaves every other user's events as they
/// were.
pub proof fn lemma_other_users_unaffected(events: Seq<ApiUsage>, e: ApiUsage, user_id: u128)
    requires
        e.user_id != user_id,
    ensures
        user_events(events.push(e), user_id) == user_events(events, user_id),
{
    assert(events.push(e).drop_last() =~= events);
}

/// Storing an event of a user appends it to that user's events.
pub proof fn lemma_own_event_appended(events: Seq<ApiUsage>, e: ApiUsage)
    ensures
        user_events(events.push(e), e.user_id) == user_events(events, e.user_id).push(e),
{
    assert(events.push(e).drop_last() =~= events);
}

/// Two events of different users, stored in either order, leave each user's
/// events in that user's own order: the earlier events, then the new one.
pub proof fn lemma_interleaving_keeps_user_order(events: Seq<ApiUsage>, a: ApiUsage, b: ApiUsage)
    requires
        a.user_id != b.user_id,
    ensures
        user_events(events.push(a).push(b), a.user_id) == user_events(events, a.user_id).push(a),
        user_events(events.push(b).push(a), a.user_id) == user_events(events, a.user_id).push(a),
        user_events(events.push(a).push(b), b.user_id) == user_events(events, b.user_id).push(b),
        user_events(events.push(b).push(a), b.user_id) == user_events(events, b.user_id).push(b),
{
    lemma_own_event_appended(events, a);
    lemma_other_users_unaffected(events.push(a), b, a.user_id);
    lemma_other_users_unaffected(events, b, a.user_id);
    lemma_own_event_appended(events.push(b), a);
    lemma_own_event_appended(events, b);
    lemma_other_users_unaffected(events.push(b), a, b.user_id);
    lemma_other_users_unaffected(events, a, b.user_id);
    lemma_own_event_appended(events.push(a), b);
}

/// The ledger invariant: every event well formed and timestamped inside the
/// supported range, identities strictly increasing and timestamps never
/// decreasing in storage order.
pub open spec fn ledger_ordered(events: Seq<ApiUsage>) -> bool {
    &&& all_well_formed(events)
    &&& forall|i: int| 0 <= i < events.len() ==> valid_timestamp(#[trigger] events[i].timestamp as int)
    &&& forall|a: int, b: int|
        0 <= a < b < events.len() ==> #[trigger] events[a].id < #[trigger] events[b].id
            && events[a].timestamp <= events[b].timestamp
}

/// The identity the next stored event gets: one past the last, 1 for an empty
/// ledger.
pub open spec fn next_id(events: Seq<ApiUsage>) -> int {
    if events.len() == 0 {
        1
    } else {
        events.last().id + 1
    }
}

/// The time the ledger stamps on an event offered at `now`: `now`, or the last
/// stored timestamp when the clock reads earlier, so that the ledger's time
/// never runs backwards.
pub open spec fn ledger_time(events: Seq<ApiUsage>, now: i64) -> i64 {
    if events.len() > 0 && events.last().timestamp > now {
        events.last().timestamp
    } else {
        now
    }
}

/// Usage events and pricing keys held in memory.
pub struct UsageRepository {
    events: Vec<ApiUsage>,
    keys: Vec<ApiKey>,
}

impl UsageRepository {
    /// The stored events, oldest first.
    pub closed spec fn usage(&self) -> Seq<ApiUsage> {
        self.events@
    }

    /// The pricing keys.
    pub closed spec fn keys(&self) -> Seq<ApiKey> {
        self.keys@
    }

    /// The stored events keep the ledger invariant.
    pub open spec fn well_formed(&self) -> bool {
        ledger_ordered(self.usage())
    }

    /// An empty store.
    pub fn new() -> (r: Self)
        ensures
            r.well_formed(),
            r.usage().len() == 0,
            r.keys().len() == 0,
    {
        UsageRepository { events: Vec::new(), keys: Vec::new() }
    }

    /// A store holding `events` and `keys` as read back from elsewhere;
    /// `None` when the events break the ledger invariant.
    pub fn restore(events: Vec<ApiUsage>, keys: Vec<ApiKey>) -> (r: Option<Self>)
        ensures
            r is Some <==> ledger_ordered(events@),
            r matches Some(repo) ==> repo.usage() == events@ && repo.keys() == keys@
                && repo.well_formed(),
    {
        let mut i: usize = 0;
        while i < events.len()
            invariant
                i <= events.len(),
                ledger_ordered(events@.subrange(0, i as int)),
            decreases events.len() - i,
        {
            let e = &events[i];
            if !e.is_well_formed() || !is_valid_timestamp(e.timestamp) {
                proof { assert(events@.subrange(0, events.len() as int) =~= events@); }
                assert(!ledger_ordered(events@)) by {
                    assert(events@[i as int] == e);
                }
                return None;
            }
            if i > 0 {
                let p = &events[i - 1];
                if p.id >= e.id || p.timestamp > e.timestamp {
                    assert(!ledger_ordered(events@)) by {
                        assert(events@[i - 1] == p);
                        assert(events@[i as int] == e);
                    }
                    return None;
                }
            }
            let ghost before = events@.subrange(0, i as int);
            let ghost after = events@.subrange(0, i + 1);
            assert forall|a: int, b: int| 0 <= a < b < after.len() implies #[trigger] after[a].id
                < #[trigger] after[b].id && after[a].timestamp <= after[b].timestamp by {
                if b < i {
                    assert(after[a] == before[a] && after[b] == before[b]);
                } else if a < i - 1 {
                    assert(after[a] == before[a] && after[i - 1] == before[i - 1]);
                    assert(before[a].id < before[i - 1].id);
                }
            }
            assert forall|a: int| 0 <= a < after.len() implies (#[trigger] after[a]).well_formed() by {
                if a < i {
                    assert(after[a] == before[a]);
                }
            }
            assert forall|a: int| 0 <= a < after.len() implies valid_timestamp(
                #[trigger] after[a].timestamp as int,
            ) by {
                if a < i {
                    assert(after[a] == before[a]);
                }
            }
            i = i + 1;
        }
        assert(events@.subrange(0, events.len() as int) =~= events@);
        Some(UsageRepository { events, keys })
    }

    /// Adds a pricing key.
    pub fn add_api_key(&mut self, key: ApiKey)
        ensures
            final(self).usage() == old(self).usage(),
            final(self).keys() == old(self).keys().push(key),
    {
        self.keys.push(key);
    }

    /// The stored events, oldest first.
    pub fn events(&self) -> (r: &Vec<ApiUsage>)
        ensures
            r@ == self.usage(),
    {
        &self.events
    }

    /// The active pricing key with id `api_key_id`; `NotFound` when the key is
    /// unknown or inactive.
    pub fn get_api_key(&self, api_key_id: u128) -> (r: Result<&ApiKey, ApiError>)
        ensures
            r is Ok <==> active_key(self.keys(), api_key_id),
            r is Err ==> r matches Err(ApiError::NotFound(_)),
            r matches Ok(k) ==> k.id == api_key_id && k.is_active && self.keys().contains(*k),
    {
        let mut i: usize = 0;
        while i < self.keys.len()
            invariant
                i <= self.keys.len(),
                forall|j: int|
                    0 <= j < i ==> !((#[trigger] self.keys@[j]).id == api_key_id
                        && self.keys@[j].is_active),
            decreases self.keys.len() - i,
        {
            let k = &self.keys[i];
            if k.id == api_key_id && k.is_active {
                return Ok(k);
            }
            i = i + 1;
        }
        Err(ApiError::NotFound(String::from_str("API key not found or inactive")))
    }

    /// Stores `usage` as one request without errors, under the next identity
    /// and at the ledger's time for its timestamp. Fails with `Database` when
    /// no identity is left.
    pub fn create_usage(&mut self, usage: ApiUsage) -> (r: Result<ApiUsage, ApiError>)
        requires
            old(self).well_formed(),
            usage.well_formed(),
            valid_timestamp(usage.timestamp as int),
        ensures
            final(self).well_formed(),
            final(self).keys() == old(self).keys(),
            next_id(old(self).usage()) <= i64::MAX <==> r is Ok,
            r is Err ==> final(self).usage() == old(self).usage() && r matches Err(
                ApiError::Database(_),
            ),
            r matches Ok(u) ==> {
                &&& u == (ApiUsage {
                    id: next_id(old(self).usage()) as i64,
                    timestamp: ledger_time(old(self).usage(), usage.timestamp),
                    requests: 1,
                    errors: 0,
                    ..usage
                })
                &&& final(self).usage() == old(self).usage().push(u)
            },
    {
        let n = self.events.len();
        let (id, timestamp) = if n == 0 {
            (1i64, usage.timestamp)
        } else {
            let last = &self.events[n - 1];
            if last.id == i64::MAX {
                return Err(ApiError::Database(String::from_str("usage ledger is full")));
            }
            let t = if last.timestamp > usage.timestamp {
                last.timestamp
            } else {
                usage.timestamp
            };
            (last.id + 1, t)
        };
        let stored = ApiUsage { id, timestamp, requests: 1, errors: 0, ..usage };
        let copy = stored.duplicate();
        self.events.push(stored);
        proof {
            let ev = self.events@;
            let old_ev = old(self).events@;
            assert forall|a: int| 0 <= a < ev.len() implies (#[trigger] ev[a]).well_formed() by {
                if a < old_ev.len() {
                    assert(ev[a] == old_ev[a]);
                }
            }
            assert forall|a: int| 0 <= a < ev.len() implies valid_timestamp(
                #[trigger] ev[a].timestamp as int,
            ) by {
                if a < old_ev.len() {
                    assert(ev[a] == old_ev[a]);
                }
            }
            assert forall|a: int, b: int| 0 <= a < b < ev.len() implies #[trigger] ev[a].id
                < #[trigger] ev[b].id && ev[a].timestamp <= ev[b].timestamp by {
                assert(ev[a] == old_ev[a]);
                if b < old_ev.len() {
                    assert(ev[b] == old_ev[b]);
                } else if a < old_ev.len() - 1 {
                    assert(old_ev[a].id < old_ev[old_ev.len() - 1].id);
                }
            }
        }
        Ok(copy)
    }

    /// The events of `user_id` timestamped within `start..=end`, restricted to
    /// one key when `api_key_id` is given, newest first: most recently stored
    /// first, which the ledger invariant makes non-increasing in time.
    pub fn get_usage_by_date_range(
        &self,
        user_id: u128,
        start: i64,
        end: i64,
        api_key_id: Option<u128>,
    ) -> (r: Vec<ApiUsage>)
        requires
            self.well_formed(),
        ensures
            r@ == range_events(self.usage(), user_id, start, end, api_key_id),
            forall|a: int, b: int| 0 <= a < b < r.len() ==> #[trigger] r@[a].timestamp >= #[trigger] r@[b].timestamp,
    {
        let mut out: Vec<ApiUsage> = Vec::new();
        let mut i: usize = self.events.len();
        assert(self.events@.subrange(0, i as int) =~= self.events@);
        while i > 0
            invariant
                i <= self.events.len(),
                range_events(self.events@, user_id, start, end, api_key_id) == out@
                    + range_events(self.events@.subrange(0, i as int), user_id, start, end, api_key_id),
                ledger_ordered(self.events@),
                forall|a: int, b: int| 0 <= a < b < out.len() ==> #[trigger] out@[a].timestamp >= #[trigger] out@[b].timestamp,
                forall|a: int, k: int| 0 <= a < out.len() && 0 <= k < i ==> #[trigger] out@[a].timestamp >= #[trigger] self.events@[k].timestamp,
            decreases i,
        {
            let ghost prefix = self.events@.subrange(0, i as int);
            assert(prefix.drop_last() =~= self.events@.subrange(0, i - 1));
            let e = &self.events[i - 1];
            let wanted = match api_key_id {
                Some(k) => e.api_key_id == k,
                None => true,
            };
            if e.user_id == user_id && start <= e.timestamp && e.timestamp <= end && wanted {
                let ghost before = out@;
                out.push(e.duplicate());
                assert forall|a: int, k: int| 0 <= a < out.len() && 0 <= k < i - 1 implies #[trigger] out@[a].timestamp
                    >= #[trigger] self.events@[k].timestamp by {
                    if a < before.len() {
                        assert(out@[a] == before[a]);
                    } else {
                        assert(out@[a] == self.events@[i - 1]);
                        assert(self.events@[k].id < self.events@[i - 1].id);
                    }
                }
                assert(out@ + range_events(
                    self.events@.subrange(0, i - 1),
                    user_id,
                    start,
                    end,
                    api_key_id,
                ) =~= before + range_events(prefix, user_id, start, end, api_key_id));
            }
            i = i - 1;
        }
        assert(self.events@.subrange(0, 0) =~= Seq::<ApiUsage>::empty());
        assert(out@ + Seq::<ApiUsage>::empty() =~= out@);
        out
    }

    /// Statistics of the events of `user_id` at or after `start`.
    pub fn calculate_stats(&self, user_id: u128, start: i64) -> (r: UsageStats)
        requires
            self.well_formed(),
        ensures
            stats_of(self.usage(), user_id, start, r),
    {
        calculate_stats(&self.events, user_id, start)
    }

    /// Daily cost totals of `user_id` from `start` on, for one key when
    /// `api_key_id` is given, in increasing day order.
    pub fn get_daily_costs(&self, user_id: u128, start: i64, api_key_id: Option<u128>) -> (r: Vec<
        (i64, u128),
    >)
        ensures
            is_daily_totals(r@, self.usage(), user_id, start, api_key_id),
    {
        daily_costs(&self.events, user_id, start, api_key_id)
    }
}

} // verus!
