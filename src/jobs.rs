//! The scheduled job runner: an Idle/Running state machine per job that skips
//! a tick while the job is still running, with the bodies of the aggregation,
//! forecast and budget-alert jobs.
use vstd::prelude::*;
use crate::clock::{current_timestamp, look_back, new_record_id, window_start};
use crate::helpers::{currency_text, format_currency, parse_period_to_days, period_days};
use crate::errors::ApiError;
use crate::hub::{BroadcastHub, HubState, WsMessage};
use crate::models::{ApiUsage, Budget, Prediction};
use crate::prediction_service::{
    prediction_event, prediction_outcome, prediction_update, PredictionService,
};
use crate::stats::{counted, stats_of, UsageStats};
use crate::store::UsageRepository;

verus! {

/// One of the recurring jobs.
#[derive(Debug, Clone, Copy, PartialEq, Eq, Structural)]
pub enum JobKind {
    /// Recomputes aggregate statistics, hourly on the hour.
    Aggregation,
    /// Forecasts cost for every active user, daily at midnight.
    Forecast,
    /// Compares recent spend with budgets, every fifteen minutes.
    AlertCheck,
}

impl JobKind {
    /// The job's cadence as a cron expression with a seconds field: on the
    /// hour, at midnight, and at minutes 0, 15, 30 and 45.
    pub fn schedule(&self) -> (r: &'static str)
        ensures
            r@ == match *self {
                JobKind::Aggregation => "0 0 * * * *"@,
                JobKind::Forecast => "0 0 0 * * *"@,
                JobKind::AlertCheck => "0 */15 * * * *"@,
            },
    {
        match self {
            JobKind::Aggregation => "0 0 * * * *",
            JobKind::Forecast => "0 0 0 * * *",
            JobKind::AlertCheck => "0 */15 * * * *",
        }
    }
}

/// The state and counters of one job.
#[derive(Debug, Clone, Copy, PartialEq, Eq, Structural)]
pub struct JobStatus {
    /// Whether an invocation is in progress.
    pub running: bool,
    /// Invocations finished.
    pub runs: u64,
    /// Invocations that finished with a failure.
    pub failures: u64,
    /// Ticks skipped because the job was still running.
    pub skipped: u64,
}

/// `x + 1`, staying at the maximum.
pub open spec fn bump(x: u64) -> u64 {
    if x < u64::MAX {
        (x + 1) as u64
    } else {
        x
    }
}

fn increment(x: u64) -> (r: u64)
    ensures
        r == bump(x),
{
    if x < u64::MAX {
        x + 1
    } else {
        x
    }
}

impl JobStatus {
    /// A job that has never run.
    pub open spec fn idle() -> JobStatus {
        JobStatus { running: false, runs: 0, failures: 0, skipped: 0 }
    }

    /// After a tick: an idle job starts; a running one is skipped, not queued.
    pub open spec fn ticked(self) -> JobStatus {
        if self.running {
            JobStatus { skipped: bump(self.skipped), ..self }
        } else {
            JobStatus { running: true, ..self }
        }
    }

    /// After an invocation ends, successfully or not: the job is idle again.
    pub open spec fn finished(self, succeeded: bool) -> JobStatus {
        JobStatus {
            running: false,
            runs: bump(self.runs),
            failures: if succeeded {
                self.failures
            } else {
                bump(self.failures)
            },
            ..self
        }
    }
}

/// What to do on a tick.
#[derive(Debug, Clone, Copy, PartialEq, Eq, Structural)]
pub enum TickDecision {
    /// Start the job.
    Run,
    /// The previous invocation is still running: do nothing.
    Skip,
}

/// The three jobs' states.
#[derive(Debug)]
pub struct JobRunner {
    pub aggregation: JobStatus,
    pub forecast: JobStatus,
    pub alert_check: JobStatus,
}

impl JobRunner {
    pub open spec fn status(&self, kind: JobKind) -> JobStatus {
        match kind {
            JobKind::Aggregation => self.aggregation,
            JobKind::Forecast => self.forecast,
            JobKind::AlertCheck => self.alert_check,
        }
    }

    /// All jobs idle.
    pub fn new() -> (r: Self)
        ensures
            forall|k: JobKind| #[trigger] r.status(k) == JobStatus::idle(),
    {
        let idle = JobStatus { running: false, runs: 0, failures: 0, skipped: 0 };
        JobRunner { aggregation: idle, forecast: idle, alert_check: idle }
    }

    fn slot(&mut self, kind: JobKind) -> (r: &mut JobStatus)
        ensures
            *r == old(self).status(kind),
            final(self).status(kind) == *final(r),
            forall|k: JobKind| k != kind ==> #[trigger] final(self).status(k) == old(self).status(k),
    {
        match kind {
            JobKind::Aggregation => &mut self.aggregation,
            JobKind::Forecast => &mut self.forecast,
            JobKind::AlertCheck => &mut self.alert_check,
        }
    }

    /// Handles a tick of `kind`: `Run` exactly when the job was idle, which
    /// marks it running; otherwise the tick is counted as skipped. Other jobs
    /// are untouched.
    pub fn on_tick(&mut self, kind: JobKind) -> (r: TickDecision)
        ensures
            r == TickDecision::Run <==> !old(self).status(kind).running,
            final(self).status(kind) == old(self).status(kind).ticked(),
            forall|k: JobKind| k != kind ==> #[trigger] final(self).status(k) == old(self).status(k),
    {
        let s = self.slot(kind);
        if s.running {
            s.skipped = increment(s.skipped);
            TickDecision::Skip
        } else {
            s.running = true;
            TickDecision::Run
        }
    }

    /// Records the end of an invocation of `kind`; a failure is counted
    /// against that job alone and every job keeps its schedule.
    pub fn on_finish(&mut self, kind: JobKind, succeeded: bool)
        ensures
            final(self).status(kind) == old(self).status(kind).finished(succeeded),
            forall|k: JobKind| k != kind ==> #[trigger] final(self).status(k) == old(self).status(k),
    {
        let s = self.slot(kind);
        s.running = false;
        s.runs = increment(s.runs);
        if !succeeded {
            s.failures = increment(s.failures);
        }
    }
}

/// A job never overlaps with itself: a tick starts it only when idle, and a
/// tick while it runs leaves it running without starting it again.
pub proof fn lemma_no_overlap(s: JobStatus)
    ensures
        s.ticked().running,
        s.running ==> s.ticked().running && s.ticked().runs == s.runs,
        s.ticked().finished(true).running == false,
        s.ticked().finished(false).running == false,
{
}

/// The total cost in cents of the counted events.
pub open spec fn spend(events: Seq<ApiUsage>, user_id: u128, since: i64, key: Option<u128>) -> int
    decreases events.len(),
{
    if events.len() == 0 {
        0
    } else {
        spend(events.drop_last(), user_id, since, key) + if counted(events.last(), user_id, since, key) {
            events.last().cost as int
        } else {
            0
        }
    }
}

/// The spend a budget is measured against at `now`: its user's (and key's)
/// cost over its period.
pub open spec fn budget_spend(events: Seq<ApiUsage>, b: Budget, now: i64) -> int {
    spend(events, b.user_id, window_start(now, period_days(b.limit_type@)), b.api_key_id)
}

/// Whether spend has reached the budget's alert threshold.
pub open spec fn threshold_reached(spent: int, b: Budget) -> bool {
    spent * 100 >= b.limit_amount * b.alert_threshold
}

/// The text of a budget alert.
pub open spec fn alert_text(spent: nat, limit: nat) -> Seq<char> {
    "Spent "@ + currency_text(spent) + " of the "@ + currency_text(limit) + " budget"@
}

/// The kind label of budget alerts.
pub const BUDGET_ALERT: &'static str = "budget_threshold";

/// `m` is the alert for budget `b` at spend `spent`.
pub open spec fn is_budget_alert(m: WsMessage, b: Budget, spent: int) -> bool {
    match m {
        WsMessage::AlertNotification { user_id, alert_type, message } => {
            &&& user_id == b.user_id
            &&& alert_type@ == BUDGET_ALERT@
            &&& message@ == alert_text(spent as nat, b.limit_amount as nat)
        },
        _ => false,
    }
}

/// `ms` are the alerts for the budgets whose threshold is reached at `now`,
/// in budget order.
pub open spec fn alerts_for(
    budgets: Seq<Budget>,
    events: Seq<ApiUsage>,
    now: i64,
    ms: Seq<WsMessage>,
) -> bool
    decreases budgets.len(),
{
    if budgets.len() == 0 {
        ms.len() == 0
    } else {
        let b = budgets.last();
        let spent = budget_spend(events, b, now);
        if threshold_reached(spent, b) {
            ms.len() > 0 && is_budget_alert(ms.last(), b, spent) && alerts_for(
                budgets.drop_last(),
                events,
                now,
                ms.drop_last(),
            )
        } else {
            alerts_for(budgets.drop_last(), events, now, ms)
        }
    }
}

/// Cost in cents of the events of `user_id` at or after `since`, for one key
/// when `key` is given.
pub fn window_spend(events: &Vec<ApiUsage>, user_id: u128, since: i64, key: Option<u128>) -> (r:
    u128)
    ensures
        r == spend(events@, user_id, since, key),
{
    let mut total: u128 = 0;
    let mut i: usize = 0;
    assert(events@.subrange(0, 0) =~= Seq::<ApiUsage>::empty());
    while i < events.len()
        invariant
            i <= events.len(),
            total == spend(events@.subrange(0, i as int), user_id, since, key),
            total <= i * 0xffff_ffff_ffff_ffffu128,
        decreases events.len() - i,
    {
        assert(events@.subrange(0, i + 1).drop_last() =~= events@.subrange(0, i as int));
        let e = &events[i];
        let wanted = match key {
            Some(k) => e.api_key_id == k,
            None => true,
        };
        if e.user_id == user_id && e.timestamp >= since && wanted {
            total = total + e.cost as u128;
        }
        i = i + 1;
    }
    assert(events@.subrange(0, events.len() as int) =~= events@);
    total
}

/// The alert for `budget` at spend `spent`.
pub fn budget_alert(budget: &Budget, spent: u128) -> (r: WsMessage)
    ensures
        is_budget_alert(r, *budget, spent as int),
{
    let mut text = String::from_str("Spent ");
    text.append(format_currency(spent).as_str());
    text.append(" of the ");
    text.append(format_currency(budget.limit_amount as u128).as_str());
    text.append(" budget");
    WsMessage::AlertNotification {
        user_id: budget.user_id,
        alert_type: String::from_str(BUDGET_ALERT),
        message: text,
    }
}

/// The alerts due at `now`: one for each budget, in order, whose spend over
/// its period has reached its threshold.
pub fn check_alerts_at(repo: &UsageRepository, budgets: &Vec<Budget>, now: i64) -> (r: Vec<
    WsMessage,
>)
    ensures
        alerts_for(budgets@, repo.usage(), now, r@),
{
    let events = repo.events();
    let mut out: Vec<WsMessage> = Vec::new();
    let mut i: usize = 0;
    assert(budgets@.subrange(0, 0) =~= Seq::<Budget>::empty());
    while i < budgets.len()
        invariant
            i <= budgets.len(),
            events@ == repo.usage(),
            alerts_for(budgets@.subrange(0, i as int), repo.usage(), now, out@),
        decreases budgets.len() - i,
    {
        let b = &budgets[i];
        assert(budgets@.subrange(0, i + 1).drop_last() =~= budgets@.subrange(0, i as int));
        let days = parse_period_to_days(b.limit_type.as_str());
        let since = look_back(now, days);
        let spent = window_spend(events, b.user_id, since, b.api_key_id);
        let limit = b.limit_amount as u128;
        let share = b.alert_threshold as u128;
        assert(limit * share < 0x1_0000_0000_0000_0000_0000_0000u128) by (nonlinear_arith)
            requires
                limit <= 0xffff_ffff_ffff_ffffu128,
                share <= 0xffff_ffffu128,
        ;
        let needed = limit * share;
        let reached = if spent >= 0x1_0000_0000_0000_0000_0000_0000u128 {
            true
        } else {
            spent * 100 >= needed
        };
        if reached {
            let ghost before = out@;
            out.push(budget_alert(b, spent));
            assert(out@.drop_last() =~= before);
        }
        i = i + 1;
    }
    assert(budgets@.subrange(0, budgets.len() as int) =~= budgets@);
    out
}

/// Look-back of the aggregation job, in days.
pub const AGGREGATION_DAYS: i64 = 1;

/// The aggregation job's body: the statistics of each user over the day
/// before `now`, in the order the users are given.
pub fn run_aggregation_at(repo: &UsageRepository, users: &Vec<u128>, now: i64) -> (r: Vec<
    UsageStats,
>)
    requires
        repo.well_formed(),
    ensures
        r.len() == users.len(),
        forall|i: int|
            0 <= i < users.len() ==> stats_of(
                repo.usage(),
                #[trigger] users@[i],
                window_start(now, AGGREGATION_DAYS as int),
                r@[i],
            ),
{
    let since = look_back(now, AGGREGATION_DAYS);
    let mut out: Vec<UsageStats> = Vec::new();
    let mut i: usize = 0;
    while i < users.len()
        invariant
            i <= users.len(),
            out.len() == i,
            since == window_start(now, AGGREGATION_DAYS as int),
            repo.well_formed(),
            forall|j: int|
                0 <= j < i ==> stats_of(repo.usage(), #[trigger] users@[j], since, out@[j]),
        decreases users.len() - i,
    {
        out.push(repo.calculate_stats(users[i], since));
        i = i + 1;
    }
    out
}

/// The forecasts that succeeded among `outcomes`, in order.
pub open spec fn stored_forecasts(outcomes: Seq<Result<Prediction, ApiError>>) -> Seq<Prediction>
    decreases outcomes.len(),
{
    if outcomes.len() == 0 {
        Seq::empty()
    } else {
        let rest = stored_forecasts(outcomes.drop_last());
        match outcomes.last() {
            Ok(p) => rest.push(p),
            Err(_) => rest,
        }
    }
}

/// The announcements of `ps`, in order.
pub open spec fn forecast_updates(ps: Seq<Prediction>) -> Seq<WsMessage> {
    ps.map_values(|p: Prediction| prediction_update(p))
}

/// What the forecast job does over `events` for `users`, with the clock at
/// `now` and `ids[i]` the identity offered to `users[i]`: `outcomes[i]` is the
/// forecast of `users[i]`; the successful ones are appended to the records in
/// user order and each is announced on the hub, in the same order.
pub open spec fn predictions_run(
    events: Seq<ApiUsage>,
    users: Seq<u128>,
    now: i64,
    ids: Seq<u128>,
    outcomes: Seq<Result<Prediction, ApiError>>,
    records_before: Seq<Prediction>,
    records_after: Seq<Prediction>,
    hub_before: HubState,
    hub_after: HubState,
) -> bool {
    &&& outcomes.len() == users.len()
    &&& ids.len() == users.len()
    &&& forall|i: int|
        0 <= i < users.len() ==> prediction_outcome(
            events,
            users[i],
            None,
            now,
            ids[i],
            #[trigger] outcomes[i],
        )
    &&& records_after == records_before + stored_forecasts(outcomes)
    &&& hub_after == hub_before.published_all(forecast_updates(stored_forecasts(outcomes)))
}

/// The forecast job's body with the clock at `now`: forecasts each user in
/// order, offering `ids[i]` as the identity of `users[i]`'s forecast, stores
/// each success and announces it on the hub. A user whose forecast fails (too
/// little history, for one) gets nothing and does not stop the others.
/// Returns how many forecasts were stored.
pub fn run_predictions_at(
    predictions: &mut PredictionService,
    repo: &UsageRepository,
    hub: &mut BroadcastHub,
    users: &Vec<u128>,
    now: i64,
    ids: &Vec<u128>,
) -> (r: usize)
    requires
        old(hub).well_formed(),
        ids.len() == users.len(),
        old(hub)@.log.len() + users.len() < u64::MAX,
    ensures
        final(hub).well_formed(),
        exists|outcomes: Seq<Result<Prediction, ApiError>>|
            #[trigger] predictions_run(
                repo.usage(),
                users@,
                now,
                ids@,
                outcomes,
                old(predictions).records(),
                final(predictions).records(),
                old(hub)@,
                final(hub)@,
            ) && r == stored_forecasts(outcomes).len(),
        forall|k: int|
            old(predictions).records().len() <= k < final(predictions).records().len()
                ==> users@.contains(#[trigger] final(predictions).records()[k].user_id),
{
    let ghost mut outcomes: Seq<Result<Prediction, ApiError>> = Seq::empty();
    let mut stored: usize = 0;
    let mut i: usize = 0;
    assert(old(predictions).records() + stored_forecasts(outcomes) =~= old(predictions).records());
    assert(forecast_updates(stored_forecasts(outcomes)) =~= Seq::<WsMessage>::empty());
    while i < users.len()
        invariant
            i <= users.len(),
            ids.len() == users.len(),
            outcomes.len() == i,
            hub.well_formed(),
            old(hub)@.log.len() + users.len() < u64::MAX,
            hub@.log.len() <= old(hub)@.log.len() + i,
            stored == stored_forecasts(outcomes).len(),
            stored <= i,
            forall|j: int|
                0 <= j < i ==> prediction_outcome(
                    repo.usage(),
                    users@[j],
                    None,
                    now,
                    ids@[j],
                    #[trigger] outcomes[j],
                ),
            predictions.records() == old(predictions).records() + stored_forecasts(outcomes),
            hub@ == old(hub)@.published_all(forecast_updates(stored_forecasts(outcomes))),
            forall|k: int|
                old(predictions).records().len() <= k < predictions.records().len()
                    ==> users@.contains(#[trigger] predictions.records()[k].user_id),
        decreases users.len() - i,
    {
        let ghost before = outcomes;
        let ghost records_before = predictions.records();
        let result = predictions.generate_prediction_at(repo, users[i], None, now, ids[i]);
        proof {
            outcomes = outcomes.push(result);
            assert(outcomes.drop_last() =~= before);
            assert forall|j: int| 0 <= j < i + 1 implies prediction_outcome(
                repo.usage(),
                users@[j],
                None,
                now,
                ids@[j],
                #[trigger] outcomes[j],
            ) by {
                if j < i {
                    assert(outcomes[j] == before[j]);
                }
            }
        }
        match result {
            Ok(p) => {
                proof {
                    let ps = stored_forecasts(before);
                    assert(stored_forecasts(outcomes) == ps.push(p));
                    assert(old(predictions).records() + ps.push(p) =~= (old(
                        predictions,
                    ).records() + ps).push(p));
                    assert(forecast_updates(ps.push(p)) =~= forecast_updates(ps).push(
                        prediction_update(p),
                    ));
                    assert(forecast_updates(ps.push(p)).drop_last() =~= forecast_updates(ps));
                    assert(users@.contains(p.user_id)) by {
                        assert(users@[i as int] == p.user_id);
                    }
                    assert forall|k: int|
                        old(predictions).records().len() <= k < predictions.records().len()
                            implies users@.contains(#[trigger] predictions.records()[k].user_id) by {
                        if k < records_before.len() {
                            assert(predictions.records()[k] == records_before[k]);
                        }
                    }
                }
                let event = prediction_event(&p);
                hub.publish(event);
                stored = stored + 1;
            },
            Err(_) => {
                assert(stored_forecasts(outcomes) == stored_forecasts(before));
            },
        }
        i = i + 1;
    }
    assert(predictions_run(
        repo.usage(),
        users@,
        now,
        ids@,
        outcomes,
        old(predictions).records(),
        predictions.records(),
        old(hub)@,
        hub@,
    ));
    stored
}

/// The forecast job's body at the current time, with fresh random
/// identities: whatever the clock and the identities, the outcome is the one
/// `run_predictions_at` gives for them.
pub fn run_predictions(
    predictions: &mut PredictionService,
    repo: &UsageRepository,
    hub: &mut BroadcastHub,
    users: &Vec<u128>,
) -> (r: usize)
    requires
        old(hub).well_formed(),
        old(hub)@.log.len() + users.len() < u64::MAX,
    ensures
        final(hub).well_formed(),
        exists|now: i64, ids: Seq<u128>, outcomes: Seq<Result<Prediction, ApiError>>|
            #[trigger] predictions_run(
                repo.usage(),
                users@,
                now,
                ids,
                outcomes,
                old(predictions).records(),
                final(predictions).records(),
                old(hub)@,
                final(hub)@,
            ) && r == stored_forecasts(outcomes).len(),
        forall|k: int|
            old(predictions).records().len() <= k < final(predictions).records().len()
                ==> users@.contains(#[trigger] final(predictions).records()[k].user_id),
{
    let now = current_timestamp();
    let mut ids: Vec<u128> = Vec::new();
    let mut i: usize = 0;
    while i < users.len()
        invariant
            i <= users.len(),
            ids.len() == i,
        decreases users.len() - i,
    {
        ids.push(new_record_id());
        i = i + 1;
    }
    run_predictions_at(predictions, repo, hub, users, now, &ids)
}

} // verus!
