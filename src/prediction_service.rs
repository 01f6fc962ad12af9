//! The prediction service: forecasts a user's cost from the trailing thirty
//! days of daily totals and keeps every forecast it makes.
use vstd::prelude::*;
use crate::clock::{current_timestamp, look_back, new_record_id, window_start};
use crate::errors::ApiError;
use crate::forecast::{
    confidence_bp, forecast_costs, lemma_confidence_bounded, predicted_daily, series_in_range,
    CONFIDENCE_CAP, CONFIDENCE_FLOOR, MIN_FORECAST_DAYS,
};
use crate::hub::WsMessage;
use crate::models::{ApiUsage, Prediction};
use crate::stats::is_daily_totals;
use crate::store::UsageRepository;

verus! {

/// Days of history a forecast reads.
pub const FORECAST_HISTORY_DAYS: i64 = 30;

/// The label stored with every forecast, naming the algorithm version.
pub const MODEL_LABEL: &'static str = "linear_regression";

/// The cost column of a daily series.
pub open spec fn costs_of(s: Seq<(i64, u128)>) -> Seq<u128> {
    s.map_values(|d: (i64, u128)| d.1)
}

/// What a forecast over daily series `s` gives: `InsufficientData` below seven
/// days, `Internal` when the series is beyond exact arithmetic, and otherwise
/// a prediction with the engine's figures for `user_id` and `api_key_id`,
/// stamped `now` and carrying identity `id`.
pub open spec fn forecast_result(
    s: Seq<(i64, u128)>,
    user_id: u128,
    api_key_id: Option<u128>,
    now: i64,
    id: u128,
    r: Result<Prediction, ApiError>,
) -> bool {
    &&& s.len() < MIN_FORECAST_DAYS <==> (r matches Err(ApiError::InsufficientData(_)))
    &&& s.len() >= MIN_FORECAST_DAYS && !series_in_range(costs_of(s)) <==> (r matches Err(
        ApiError::Internal(_),
    ))
    &&& r is Ok <==> s.len() >= MIN_FORECAST_DAYS && series_in_range(costs_of(s))
    &&& (r matches Ok(p) ==> {
        &&& p.id == id
        &&& p.user_id == user_id
        &&& p.api_key_id == api_key_id
        &&& p.prediction_date == now
        &&& p.created_at == now
        &&& p.predicted_daily_cost == predicted_daily(costs_of(s))
        &&& p.predicted_weekly_cost == 7 * p.predicted_daily_cost
        &&& p.predicted_monthly_cost == 30 * p.predicted_daily_cost
        &&& p.confidence_score == confidence_bp(costs_of(s))
        &&& p.model_used@ == MODEL_LABEL@
    })
}

/// What forecasting `user_id` (one key when `api_key_id` is given) over
/// `events` with the clock at `now` and identity `id` gives: the engine's
/// result over the daily totals of the thirty days before `now`.
pub open spec fn prediction_outcome(
    events: Seq<ApiUsage>,
    user_id: u128,
    api_key_id: Option<u128>,
    now: i64,
    id: u128,
    r: Result<Prediction, ApiError>,
) -> bool {
    exists|s: Seq<(i64, u128)>|
        is_daily_totals(
            s,
            events,
            user_id,
            window_start(now, FORECAST_HISTORY_DAYS as int),
            api_key_id,
        ) && forecast_result(s, user_id, api_key_id, now, id, r)
}

/// The announcement of a stored forecast.
pub open spec fn prediction_update(p: Prediction) -> WsMessage {
    WsMessage::PredictionUpdate {
        user_id: p.user_id,
        daily_cost: p.predicted_daily_cost,
        weekly_cost: p.predicted_weekly_cost,
        monthly_cost: p.predicted_monthly_cost,
    }
}

/// The announcement of a stored forecast.
pub fn prediction_event(p: &Prediction) -> (r: WsMessage)
    ensures
        r == prediction_update(*p),
{
    WsMessage::PredictionUpdate {
        user_id: p.user_id,
        daily_cost: p.predicted_daily_cost,
        weekly_cost: p.predicted_weekly_cost,
        monthly_cost: p.predicted_monthly_cost,
    }
}

/// Forecasts kept in memory, oldest first.
pub struct PredictionService {
    predictions: Vec<Prediction>,
}

impl PredictionService {
    /// The stored forecasts, oldest first.
    pub closed spec fn records(&self) -> Seq<Prediction> {
        self.predictions@
    }

    pub fn new() -> (r: Self)
        ensures
            r.records().len() == 0,
    {
        PredictionService { predictions: Vec::new() }
    }

    /// The stored forecasts, oldest first.
    pub fn predictions(&self) -> (r: &Vec<Prediction>)
        ensures
            r@ == self.records(),
    {
        &self.predictions
    }

    /// Forecasts the cost of `user_id` (of one key when `api_key_id` is given)
    /// from the daily totals of the thirty days before `now`, stores the
    /// forecast under identity `id` and returns it. On failure nothing is
    /// stored.
    pub fn generate_prediction_at(
        &mut self,
        repo: &UsageRepository,
        user_id: u128,
        api_key_id: Option<u128>,
        now: i64,
        id: u128,
    ) -> (r: Result<Prediction, ApiError>)
        ensures
            prediction_outcome(repo.usage(), user_id, api_key_id, now, id, r),
            r is Err ==> final(self).records() == old(self).records(),
            r matches Ok(p) ==> final(self).records() == old(self).records().push(p),
            r matches Ok(p) ==> CONFIDENCE_FLOOR <= p.confidence_score <= CONFIDENCE_CAP
                && p.model_used@ == MODEL_LABEL@,
    {
        let since = look_back(now, FORECAST_HISTORY_DAYS);
        let series = repo.get_daily_costs(user_id, since, api_key_id);
        let mut costs: Vec<u128> = Vec::new();
        let mut i: usize = 0;
        while i < series.len()
            invariant
                i <= series.len(),
                costs@ == costs_of(series@).subrange(0, i as int),
            decreases series.len() - i,
        {
            costs.push(series[i].1);
            i = i + 1;
            assert(costs@ =~= costs_of(series@).subrange(0, i as int));
        }
        assert(costs@ =~= costs_of(series@));
        let r = match forecast_costs(&costs) {
            Ok(f) => {
                proof { reveal_strlit("linear_regression"); }
                let p = Prediction {
                    id,
                    user_id,
                    api_key_id,
                    prediction_date: now,
                    predicted_daily_cost: f.daily,
                    predicted_weekly_cost: f.weekly,
                    predicted_monthly_cost: f.monthly,
                    confidence_score: f.confidence,
                    model_used: String::from_str(MODEL_LABEL),
                    created_at: now,
                };
                self.predictions.push(p.duplicate());
                Ok(p)
            },
            Err(e) => Err(e),
        };
        assert(forecast_result(series@, user_id, api_key_id, now, id, r));
        proof { lemma_confidence_bounded(costs@); }
        r
    }

    /// Forecasts at the current time under a fresh random identity.
    pub fn generate_prediction(
        &mut self,
        repo: &UsageRepository,
        user_id: u128,
        api_key_id: Option<u128>,
    ) -> (r: Result<Prediction, ApiError>)
        ensures
            exists|now: i64, id: u128| #[trigger] prediction_outcome(repo.usage(), user_id, api_key_id, now, id, r),
            r is Err ==> final(self).records() == old(self).records(),
            r matches Ok(p) ==> final(self).records() == old(self).records().push(p),
            r matches Ok(p) ==> p.user_id == user_id && p.api_key_id == api_key_id,
            r matches Ok(p) ==> CONFIDENCE_FLOOR <= p.confidence_score <= CONFIDENCE_CAP
                && p.model_used@ == MODEL_LABEL@,
    {
        let now = current_timestamp();
        let id = new_record_id();
        self.generate_prediction_at(repo, user_id, api_key_id, now, id)
    }
}

} // verus!
