//! Usage events, pricing keys, usage requests, predictions and budgets, with
//! the cost calculator.
use vstd::prelude::*;

verus! {

/// With prices in micro-dollars per 1000 tokens, `tokens * price` is a cost in
/// units of 10^-7 cents: this many of them make one cent.
pub const COST_DIVISOR: u128 = 10_000_000;

/// Longest accepted model name, in characters.
pub const MAX_MODEL_NAME_LEN: usize = 100;

/// `tokens * price` summed over input and output: the exact cost in units of
/// 10^-7 cents, when prices are micro-dollars per 1000 tokens.
pub open spec fn exact_cost(input_tokens: int, output_tokens: int, price_in: int, price_out: int) -> int {
    input_tokens * price_in + output_tokens * price_out
}

/// The exact cost rounded to whole cents, half a cent rounding up.
pub open spec fn cost_cents(input_tokens: int, output_tokens: int, price_in: int, price_out: int) -> int {
    (exact_cost(input_tokens, output_tokens, price_in, price_out) + COST_DIVISOR / 2) / (
    COST_DIVISOR as int)
}

/// A copy of an optional text.
pub fn copy_text(text: &Option<String>) -> (r: Option<String>)
    ensures
        r == *text,
{
    match text {
        Some(t) => Some(t.clone()),
        None => None,
    }
}

/// One recorded unit of metered API consumption. Immutable once stored.
#[derive(Debug)]
pub struct ApiUsage {
    pub id: i64,
    pub user_id: u128,
    pub api_key_id: u128,
    /// Seconds since the Unix epoch.
    pub timestamp: i64,
    pub input_tokens: i32,
    pub output_tokens: i32,
    pub total_tokens: i32,
    /// Always 1 for a stored event.
    pub requests: i32,
    /// 0 or 1.
    pub errors: i32,
    /// Cost in cents.
    pub cost: u64,
    pub model_name: Option<String>,
    pub endpoint: Option<String>,
    pub status_code: Option<i32>,
    pub response_time_ms: Option<i32>,
    /// Free-form JSON text supplied by the caller.
    pub metadata: Option<String>,
}

impl ApiUsage {
    /// The invariants of a stored usage event.
    pub open spec fn well_formed(&self) -> bool {
        &&& self.input_tokens >= 0
        &&& self.output_tokens >= 0
        &&& self.total_tokens == self.input_tokens + self.output_tokens
        &&& self.requests == 1
        &&& (self.errors == 0 || self.errors == 1)
        &&& (self.response_time_ms matches Some(t) ==> t >= 0)
    }

    /// A copy of the event.
    pub fn duplicate(&self) -> (r: Self)
        ensures
            r == *self,
    {
        ApiUsage {
            id: self.id,
            user_id: self.user_id,
            api_key_id: self.api_key_id,
            timestamp: self.timestamp,
            input_tokens: self.input_tokens,
            output_tokens: self.output_tokens,
            total_tokens: self.total_tokens,
            requests: self.requests,
            errors: self.errors,
            cost: self.cost,
            model_name: copy_text(&self.model_name),
            endpoint: copy_text(&self.endpoint),
            status_code: self.status_code,
            response_time_ms: self.response_time_ms,
            metadata: copy_text(&self.metadata),
        }
    }

    /// Checks the invariants of a stored usage event, for rows read back from
    /// a store.
    pub fn is_well_formed(&self) -> (r: bool)
        ensures
            r == self.well_formed(),
    {
        let latency_ok = match self.response_time_ms {
            Some(t) => t >= 0,
            None => true,
        };
        self.input_tokens >= 0 && self.output_tokens >= 0 && self.total_tokens as i64
            == self.input_tokens as i64 + self.output_tokens as i64 && self.requests == 1 && (
        self.errors == 0 || self.errors == 1) && latency_ok
    }

    /// Cost in cents of `input_tokens` and `output_tokens` at the given prices
    /// (micro-dollars per 1000 tokens), rounded half up to whole cents.
    pub fn calculate_cost(
        input_tokens: i32,
        output_tokens: i32,
        cost_per_1k_input: u32,
        cost_per_1k_output: u32,
    ) -> (r: u64)
        requires
            input_tokens >= 0,
            output_tokens >= 0,
        ensures
            r == cost_cents(
                input_tokens as int,
                output_tokens as int,
                cost_per_1k_input as int,
                cost_per_1k_output as int,
            ),
            r * COST_DIVISOR <= exact_cost(
                input_tokens as int,
                output_tokens as int,
                cost_per_1k_input as int,
                cost_per_1k_output as int,
            ) + COST_DIVISOR / 2 < r * COST_DIVISOR + COST_DIVISOR,
    {
        let a = input_tokens as u128;
        let b = output_tokens as u128;
        let p = cost_per_1k_input as u128;
        let q = cost_per_1k_output as u128;
        assert(a * p <= 0x8000_0000u128 * 0x1_0000_0000u128) by (nonlinear_arith)
            requires
                a < 0x8000_0000u128,
                p < 0x1_0000_0000u128,
        ;
        assert(b * q <= 0x8000_0000u128 * 0x1_0000_0000u128) by (nonlinear_arith)
            requires
                b < 0x8000_0000u128,
                q < 0x1_0000_0000u128,
        ;
        let total = a * p + b * q;
        let cents = (total + COST_DIVISOR / 2) / COST_DIVISOR;
        cents as u64
    }
}

/// A provider key with its pricing profile.
#[derive(Debug)]
pub struct ApiKey {
    pub id: u128,
    pub user_id: u128,
    pub name: String,
    pub provider: String,
    pub encrypted_key: String,
    /// Micro-dollars per 1000 input tokens.
    pub cost_per_1k_input: u32,
    /// Micro-dollars per 1000 output tokens.
    pub cost_per_1k_output: u32,
    pub is_active: bool,
    pub created_at: i64,
    pub updated_at: i64,
}

/// A request to record one usage event.
#[derive(Debug)]
pub struct CreateUsageRequest {
    pub api_key_id: u128,
    pub input_tokens: i32,
    pub output_tokens: i32,
    pub model_name: String,
    pub endpoint: Option<String>,
    pub status_code: Option<i32>,
    pub response_time_ms: Option<i32>,
    pub metadata: Option<String>,
}

impl CreateUsageRequest {
    /// Token counts non-negative with a sum that fits the event's counter,
    /// a model name of 1 to 100 characters, a status code in 100..=599 and a
    /// non-negative latency when given.
    pub open spec fn valid(&self) -> bool {
        &&& self.input_tokens >= 0
        &&& self.output_tokens >= 0
        &&& self.input_tokens + self.output_tokens <= i32::MAX
        &&& 1 <= self.model_name@.len() <= MAX_MODEL_NAME_LEN
        &&& (self.status_code matches Some(c) ==> 100 <= c <= 599)
        &&& (self.response_time_ms matches Some(t) ==> t >= 0)
    }

    /// Checks the request's input constraints.
    pub fn validate(&self) -> (r: bool)
        ensures
            r == self.valid(),
    {
        let name_len = self.model_name.as_str().unicode_len();
        let status_ok = match self.status_code {
            Some(c) => 100 <= c && c <= 599,
            None => true,
        };
        let latency_ok = match self.response_time_ms {
            Some(t) => t >= 0,
            None => true,
        };
        self.input_tokens >= 0 && self.output_tokens >= 0 && self.input_tokens as i64
            + self.output_tokens as i64 <= i32::MAX as i64 && 1 <= name_len && name_len
            <= MAX_MODEL_NAME_LEN && status_ok && latency_ok
    }
}

/// A persisted cost forecast.
#[derive(Debug)]
pub struct Prediction {
    pub id: u128,
    pub user_id: u128,
    pub api_key_id: Option<u128>,
    pub prediction_date: i64,
    /// Cents.
    pub predicted_daily_cost: u128,
    /// Cents.
    pub predicted_weekly_cost: u128,
    /// Cents.
    pub predicted_monthly_cost: u128,
    /// Basis points: 5000 is 0.5, 9500 is 0.95.
    pub confidence_score: u32,
    pub model_used: String,
    pub created_at: i64,
}

impl Prediction {
    /// A copy of the prediction.
    pub fn duplicate(&self) -> (r: Self)
        ensures
            r == *self,
    {
        Prediction {
            id: self.id,
            user_id: self.user_id,
            api_key_id: self.api_key_id,
            prediction_date: self.prediction_date,
            predicted_daily_cost: self.predicted_daily_cost,
            predicted_weekly_cost: self.predicted_weekly_cost,
            predicted_monthly_cost: self.predicted_monthly_cost,
            confidence_score: self.confidence_score,
            model_used: self.model_used.clone(),
            created_at: self.created_at,
        }
    }
}

/// A spending limit with the share of it at which an alert is raised.
#[derive(Debug)]
pub struct Budget {
    pub id: u128,
    pub user_id: u128,
    pub api_key_id: Option<u128>,
    /// Period name of the limit, as understood by the period table.
    pub limit_type: String,
    /// Cents.
    pub limit_amount: u64,
    /// Percent of the limit at which an alert is raised.
    pub alert_threshold: u32,
    pub created_at: i64,
    pub updated_at: i64,
}

} // verus!
