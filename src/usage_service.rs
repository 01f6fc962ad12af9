//! The usage recorder: validates and prices one usage event, stores it, and
//! announces it to live subscribers; plus range queries and windowed
//! statistics by period name.
use vstd::prelude::*;
use crate::clock::{
    current_timestamp, look_back, parse_rfc3339, rfc3339_seconds, rfc3339_text, rfc3339_utc,
    valid_timestamp, window_start,
};
use crate::errors::ApiError;
use crate::helpers::{parse_period_to_days, period_days};
use crate::hub::{BroadcastHub, WsMessage};
use crate::models::{cost_cents, ApiKey, ApiUsage, CreateUsageRequest};
use crate::stats::{stats_of, UsageStats};
use crate::store::{active_key, ledger_time, next_id, range_events, UsageRepository};

verus! {

/// Days a range query looks back when no start is given.
pub const DEFAULT_RANGE_DAYS: i64 = 7;

/// The usage event a valid request becomes, priced under `key`, recorded at
/// `now` with identity `id`.
pub open spec fn usage_for(
    id: i64,
    user_id: u128,
    req: CreateUsageRequest,
    key: ApiKey,
    now: i64,
) -> ApiUsage {
    ApiUsage {
        id,
        user_id,
        api_key_id: req.api_key_id,
        timestamp: now,
        input_tokens: req.input_tokens,
        output_tokens: req.output_tokens,
        total_tokens: (req.input_tokens + req.output_tokens) as i32,
        requests: 1,
        errors: 0,
        cost: cost_cents(
            req.input_tokens as int,
            req.output_tokens as int,
            key.cost_per_1k_input as int,
            key.cost_per_1k_output as int,
        ) as u64,
        model_name: Some(req.model_name),
        endpoint: req.endpoint,
        status_code: req.status_code,
        response_time_ms: req.response_time_ms,
        metadata: req.metadata,
    }
}

/// `m` announces the usage event `u`.
pub open spec fn is_usage_update(m: WsMessage, u: ApiUsage) -> bool {
    match m {
        WsMessage::UsageUpdate { user_id, cost, tokens, timestamp } => {
            &&& user_id == u.user_id
            &&& cost == u.cost
            &&& tokens == u.total_tokens
            &&& timestamp@ == rfc3339_text(u.timestamp as int)
        },
        _ => false,
    }
}

/// The announcement of a usage event: its user, cost, total tokens and the
/// RFC 3339 text of its timestamp.
pub fn usage_update_event(u: &ApiUsage) -> (r: WsMessage)
    requires
        valid_timestamp(u.timestamp as int),
    ensures
        is_usage_update(r, *u),
{
    WsMessage::UsageUpdate {
        user_id: u.user_id,
        cost: u.cost,
        tokens: u.total_tokens,
        timestamp: rfc3339_utc(u.timestamp),
    }
}

/// Whether `key` is the active key a request names.
pub open spec fn prices(key: Option<&ApiKey>, api_key_id: u128) -> bool {
    key matches Some(k) && k.id == api_key_id && k.is_active
}

/// Validates `req` and prices it under `key`, the key looked up for
/// `req.api_key_id` (`None` when there is none). The result carries identity
/// 0: the store that keeps it assigns the real one.
///
/// Fails with `ValidationError` when the request breaks an input constraint
/// or `now` is out of range, and otherwise with `NotFound` when `key` is not
/// the active key the request names.
pub fn price_usage(user_id: u128, req: CreateUsageRequest, key: Option<&ApiKey>, now: i64) -> (r:
    Result<ApiUsage, ApiError>)
    ensures
        !(req.valid() && valid_timestamp(now as int)) <==> r matches Err(
            ApiError::ValidationError(_),
        ),
        req.valid() && valid_timestamp(now as int) && !prices(key, req.api_key_id) <==> r matches Err(
            ApiError::NotFound(_),
        ),
        r is Ok <==> req.valid() && valid_timestamp(now as int) && prices(key, req.api_key_id),
        r matches Ok(u) ==> u == usage_for(0, user_id, req, *key.unwrap(), now),
        r matches Ok(u) ==> u.cost as int == cost_cents(
            req.input_tokens as int,
            req.output_tokens as int,
            key.unwrap().cost_per_1k_input as int,
            key.unwrap().cost_per_1k_output as int,
        ),
{
    if !req.validate() || !(crate::clock::MIN_TIMESTAMP <= now && now <= crate::clock::MAX_TIMESTAMP) {
        return Err(ApiError::ValidationError(String::from_str("Validation failed")));
    }
    let k = match key {
        Some(k) => k,
        None => {
            return Err(ApiError::NotFound(String::from_str("API key not found or inactive")));
        },
    };
    if k.id != req.api_key_id || !k.is_active {
        return Err(ApiError::NotFound(String::from_str("API key not found or inactive")));
    }
    let cost = ApiUsage::calculate_cost(
        req.input_tokens,
        req.output_tokens,
        k.cost_per_1k_input,
        k.cost_per_1k_output,
    );
    let total_tokens = req.input_tokens + req.output_tokens;
    Ok(ApiUsage {
        id: 0,
        user_id,
        api_key_id: req.api_key_id,
        timestamp: now,
        input_tokens: req.input_tokens,
        output_tokens: req.output_tokens,
        total_tokens,
        requests: 1,
        errors: 0,
        cost,
        model_name: Some(req.model_name),
        endpoint: req.endpoint,
        status_code: req.status_code,
        response_time_ms: req.response_time_ms,
        metadata: req.metadata,
    })
}

/// The first bound a range query uses: the instant `start_date` denotes, or
/// seven days before `now` when it is absent or not RFC 3339.
pub open spec fn range_start(start_date: Option<&str>, now: i64) -> i64 {
    match start_date {
        Some(s) => match rfc3339_seconds(s@) {
            Some(t) => t,
            None => window_start(now, DEFAULT_RANGE_DAYS as int),
        },
        None => window_start(now, DEFAULT_RANGE_DAYS as int),
    }
}

/// The last bound a range query uses: the instant `end_date` denotes, or
/// `now` when it is absent or not RFC 3339.
pub open spec fn range_end(end_date: Option<&str>, now: i64) -> i64 {
    match end_date {
        Some(s) => match rfc3339_seconds(s@) {
            Some(t) => t,
            None => now,
        },
        None => now,
    }
}

/// The bounds of a range query given as RFC 3339 texts.
pub fn resolve_range(start_date: Option<&str>, end_date: Option<&str>, now: i64) -> (r: (i64, i64))
    ensures
        r.0 == range_start(start_date, now),
        r.1 == range_end(end_date, now),
{
    let start = match start_date {
        Some(s) => match parse_rfc3339(s) {
            Some(t) => t,
            None => look_back(now, DEFAULT_RANGE_DAYS),
        },
        None => look_back(now, DEFAULT_RANGE_DAYS),
    };
    let end = match end_date {
        Some(s) => match parse_rfc3339(s) {
            Some(t) => t,
            None => now,
        },
        None => now,
    };
    (start, end)
}

/// What recording `req` for `user_id` with the clock at `now` does, taking
/// the service from `before` to `after` with result `r`.
///
/// An invalid request or out-of-range time fails with `ValidationError`;
/// otherwise a key that is unknown or inactive fails with `NotFound`; otherwise
/// a ledger without identities left fails with `Database`; otherwise the call
/// succeeds. A failure stores and publishes nothing. A success appends exactly
/// the priced event, under the next identity and at the ledger's time, and
/// publishes one usage update for it unless the hub can take no more events.
pub open spec fn recorded(
    before: UsageService,
    after: UsageService,
    user_id: u128,
    req: CreateUsageRequest,
    now: i64,
    r: Result<ApiUsage, ApiError>,
) -> bool {
    let accepted = req.valid() && valid_timestamp(now as int);
    let keyed = active_key(before.repo.keys(), req.api_key_id);
    let room = next_id(before.repo.usage()) <= i64::MAX;
    &&& after.repo.keys() == before.repo.keys()
    &&& !accepted <==> (r matches Err(ApiError::ValidationError(_)))
    &&& accepted && !keyed <==> (r matches Err(ApiError::NotFound(_)))
    &&& accepted && keyed && !room <==> (r matches Err(ApiError::Database(_)))
    &&& accepted && keyed && room <==> r is Ok
    &&& (r is Err ==> after.repo.usage() == before.repo.usage() && after.hub@ == before.hub@)
    &&& (r matches Ok(u) ==> exists|k: ApiKey|
        #![trigger before.repo.keys().contains(k)]
        before.repo.keys().contains(k) && k.id == req.api_key_id && k.is_active && u.cost as int
            == cost_cents(
            req.input_tokens as int,
            req.output_tokens as int,
            k.cost_per_1k_input as int,
            k.cost_per_1k_output as int,
        ) && u == usage_for(
            next_id(before.repo.usage()) as i64,
            user_id,
            req,
            k,
            ledger_time(before.repo.usage(), now),
        ))
    &&& (r matches Ok(u) ==> after.repo.usage() == before.repo.usage().push(u))
    &&& (r matches Ok(u) ==> before.hub@.log.len() < u64::MAX ==> exists|m: WsMessage|
        is_usage_update(m, u) && after.hub@ == before.hub@.published(m))
    &&& (r is Ok ==> before.hub@.log.len() >= u64::MAX ==> after.hub@ == before.hub@)
}

/// The usage store together with the hub that announces new usage.
pub struct UsageService {
    pub repo: UsageRepository,
    pub hub: BroadcastHub,
}

impl UsageService {
    pub open spec fn well_formed(&self) -> bool {
        self.repo.well_formed() && self.hub.well_formed()
    }

    pub fn new(repo: UsageRepository, hub: BroadcastHub) -> (r: Self)
        ensures
            r.repo == repo,
            r.hub == hub,
    {
        UsageService { repo, hub }
    }

    /// Records one usage event of `user_id` at time `now`: validates the
    /// request, prices it under its key, stores it, and publishes a usage
    /// update. On any failure nothing is stored and nothing is published;
    /// a hub that can take no more events is skipped without failing.
    pub fn record_usage_at(&mut self, user_id: u128, req: CreateUsageRequest, now: i64) -> (r:
        Result<ApiUsage, ApiError>)
        requires
            old(self).well_formed(),
        ensures
            final(self).well_formed(),
            recorded(*old(self), *final(self), user_id, req, now, r),
    {
        let key = match self.repo.get_api_key(req.api_key_id) {
            Ok(k) => Some(k),
            Err(_) => None,
        };
        let ghost request = req;
        let draft = match price_usage(user_id, req, key, now) {
            Ok(u) => u,
            Err(e) => {
                return Err(e);
            },
        };
        let ghost k = *key.unwrap();
        let stored = match self.repo.create_usage(draft) {
            Ok(u) => u,
            Err(e) => {
                return Err(e);
            },
        };
        assert(stored == usage_for(
            next_id(old(self).repo.usage()) as i64,
            user_id,
            request,
            k,
            ledger_time(old(self).repo.usage(), now),
        ));
        proof {
            if old(self).repo.usage().len() > 0 {
                let last = old(self).repo.usage().last();
                assert(valid_timestamp(last.timestamp as int));
            }
        }
        if self.hub.published_count() < u64::MAX {
            let event = usage_update_event(&stored);
            self.hub.publish(event);
        }
        Ok(stored)
    }

    /// Records one usage event of `user_id` at the current time: whatever the
    /// clock reads, the outcome is the one `record_usage_at` gives for that
    /// reading.
    pub fn record_usage(&mut self, user_id: u128, req: CreateUsageRequest) -> (r: Result<
        ApiUsage,
        ApiError,
    >)
        requires
            old(self).well_formed(),
        ensures
            final(self).well_formed(),
            exists|now: i64| #[trigger] recorded(*old(self), *final(self), user_id, req, now, r),
            !req.valid() ==> r matches Err(ApiError::ValidationError(_)),
            !active_key(old(self).repo.keys(), req.api_key_id) ==> r is Err,
            r is Err ==> final(self).repo.usage() == old(self).repo.usage() && final(self).hub@ == old(
                self,
            ).hub@,
            r matches Ok(u) ==> final(self).repo.usage() == old(self).repo.usage().push(u),
            r matches Ok(u) ==> exists|k: ApiKey, now: i64|
                #![trigger old(self).repo.keys().contains(k), valid_timestamp(now as int)]
                old(self).repo.keys().contains(k) && k.id == req.api_key_id && k.is_active
                    && valid_timestamp(now as int) && u == usage_for(
                    next_id(old(self).repo.usage()) as i64,
                    user_id,
                    req,
                    k,
                    ledger_time(old(self).repo.usage(), now),
                ),
            r matches Ok(u) ==> old(self).hub@.log.len() < u64::MAX ==> exists|m: WsMessage|
                is_usage_update(m, u) && final(self).hub@ == old(self).hub@.published(m),
    {
        let now = current_timestamp();
        let r = self.record_usage_at(user_id, req, now);
        assert(recorded(*old(self), *self, user_id, req, now, r));
        r
    }

    /// The events of `user_id` between `start` (default: seven days before
    /// `now`) and `end` (default: `now`), for one key when `api_key_id` is
    /// given, newest first.
    pub fn get_usage_at(
        &self,
        user_id: u128,
        start: Option<i64>,
        end: Option<i64>,
        api_key_id: Option<u128>,
        now: i64,
    ) -> (r: Vec<ApiUsage>)
        requires
            self.repo.well_formed(),
        ensures
            r@ == range_events(
                self.repo.usage(),
                user_id,
                match start {
                    Some(s) => s,
                    None => window_start(now, DEFAULT_RANGE_DAYS as int),
                },
                match end {
                    Some(e) => e,
                    None => now,
                },
                api_key_id,
            ),
    {
        let from = match start {
            Some(s) => s,
            None => look_back(now, DEFAULT_RANGE_DAYS),
        };
        let to = match end {
            Some(e) => e,
            None => now,
        };
        self.repo.get_usage_by_date_range(user_id, from, to, api_key_id)
    }

    /// Like `get_usage_at`, with bounds given as RFC 3339 texts; a bound that
    /// is absent or does not parse takes its default (see `resolve_range`).
    pub fn get_usage_between(
        &self,
        user_id: u128,
        start_date: Option<&str>,
        end_date: Option<&str>,
        api_key_id: Option<u128>,
        now: i64,
    ) -> (r: Vec<ApiUsage>)
        requires
            self.repo.well_formed(),
        ensures
            r@ == range_events(
                self.repo.usage(),
                user_id,
                range_start(start_date, now),
                range_end(end_date, now),
                api_key_id,
            ),
    {
        let (start, end) = resolve_range(start_date, end_date, now);
        self.repo.get_usage_by_date_range(user_id, start, end, api_key_id)
    }

    /// `get_usage_between` at the current time.
    pub fn get_usage(
        &self,
        user_id: u128,
        start_date: Option<&str>,
        end_date: Option<&str>,
        api_key_id: Option<u128>,
    ) -> (r: Vec<ApiUsage>)
        requires
            self.repo.well_formed(),
        ensures
            exists|now: i64|
                r@ == range_events(
                    self.repo.usage(),
                    user_id,
                    #[trigger] range_start(start_date, now),
                    range_end(end_date, now),
                    api_key_id,
                ),
    {
        let now = current_timestamp();
        self.get_usage_between(user_id, start_date, end_date, api_key_id, now)
    }

    /// Statistics of `user_id` over the named period ending at `now`.
    pub fn calculate_stats_at(&self, user_id: u128, period: &str, now: i64) -> (r: UsageStats)
        requires
            self.repo.well_formed(),
        ensures
            stats_of(self.repo.usage(), user_id, window_start(now, period_days(period@)), r),
    {
        let days = parse_period_to_days(period);
        let start = look_back(now, days);
        self.repo.calculate_stats(user_id, start)
    }

    /// Statistics of `user_id` over the named period ending now.
    pub fn calculate_stats(&self, user_id: u128, period: &str) -> (r: UsageStats)
        requires
            self.repo.well_formed(),
        ensures
            exists|now: i64|
                stats_of(
                    self.repo.usage(),
                    user_id,
                    #[trigger] window_start(now, period_days(period@)),
                    r,
                ),
    {
        let now = current_timestamp();
        self.calculate_stats_at(user_id, period, now)
    }
}

} // verus!
