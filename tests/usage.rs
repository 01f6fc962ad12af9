use api_usage_analyzer::errors::ApiError;
use api_usage_analyzer::hub::{BroadcastHub, Received, WsMessage};
use api_usage_analyzer::models::{ApiKey, ApiUsage, CreateUsageRequest};
use api_usage_analyzer::prediction_service::PredictionService;
use api_usage_analyzer::stats::{calculate_stats, daily_costs, key_usage_stats};
use api_usage_analyzer::store::UsageRepository;
use api_usage_analyzer::usage_service::UsageService;

const JAN_1_2024: i64 = 1_704_067_200;
const DAY: i64 = 86_400;

fn key(id: u128, active: bool) -> ApiKey {
    ApiKey {
        id,
        user_id: 1,
        name: "main".to_string(),
        provider: "openai".to_string(),
        encrypted_key: "c2VjcmV0".to_string(),
        cost_per_1k_input: 10_000,
        cost_per_1k_output: 30_000,
        is_active: active,
        created_at: 0,
        updated_at: 0,
    }
}

fn request(api_key_id: u128, input: i32, output: i32) -> CreateUsageRequest {
    CreateUsageRequest {
        api_key_id,
        input_tokens: input,
        output_tokens: output,
        model_name: "gpt-4".to_string(),
        endpoint: Some("/v1/chat".to_string()),
        status_code: Some(200),
        response_time_ms: Some(120),
        metadata: None,
    }
}

fn service() -> UsageService {
    let mut repo = UsageRepository::new();
    repo.add_api_key(key(10, true));
    repo.add_api_key(key(11, false));
    UsageService::new(repo, BroadcastHub::new(100))
}

#[test]
fn records_usage_and_announces_it() {
    let mut svc = service();
    let sub = svc.hub.subscribe();
    let u = svc.record_usage_at(5, request(10, 1500, 500), JAN_1_2024).unwrap();
    assert_eq!(u.id, 1);
    assert_eq!(u.user_id, 5);
    assert_eq!(u.total_tokens, 2000);
    assert_eq!(u.requests, 1);
    assert_eq!(u.errors, 0);
    assert_eq!(u.cost, 3);
    assert_eq!(u.timestamp, JAN_1_2024);
    assert_eq!(u.model_name.as_deref(), Some("gpt-4"));
    assert_eq!(svc.repo.events().len(), 1);
    match svc.hub.receive(sub) {
        Received::Event(WsMessage::UsageUpdate { user_id, cost, tokens, timestamp }) => {
            assert_eq!(user_id, 5);
            assert_eq!(cost, 3);
            assert_eq!(tokens, 2000);
            assert_eq!(timestamp, "2024-01-01T00:00:00+00:00");
        }
        _ => panic!("expected a usage update"),
    }
}

#[test]
fn inactive_or_unknown_key_is_not_found_and_writes_nothing() {
    let mut svc = service();
    let sub = svc.hub.subscribe();
    let r = svc.record_usage_at(5, request(11, 100, 100), JAN_1_2024);
    assert!(matches!(r, Err(ApiError::NotFound(_))));
    let r = svc.record_usage_at(5, request(99, 100, 100), JAN_1_2024);
    assert!(matches!(r, Err(ApiError::NotFound(_))));
    assert_eq!(svc.repo.events().len(), 0);
    assert_eq!(svc.hub.published_count(), 0);
    assert!(matches!(svc.hub.receive(sub), Received::Empty));
}

#[test]
fn invalid_requests_are_rejected() {
    let mut svc = service();
    let mut r = request(10, 1, 1);
    r.model_name = String::new();
    assert!(matches!(svc.record_usage_at(5, r, JAN_1_2024), Err(ApiError::ValidationError(_))));
    let mut r = request(10, 1, 1);
    r.model_name = "m".repeat(101);
    assert!(matches!(svc.record_usage_at(5, r, JAN_1_2024), Err(ApiError::ValidationError(_))));
    let mut r = request(10, 1, 1);
    r.status_code = Some(600);
    assert!(matches!(svc.record_usage_at(5, r, JAN_1_2024), Err(ApiError::ValidationError(_))));
    let mut r = request(10, 1, 1);
    r.response_time_ms = Some(-1);
    assert!(matches!(svc.record_usage_at(5, r, JAN_1_2024), Err(ApiError::ValidationError(_))));
    assert!(matches!(
        svc.record_usage_at(5, request(10, -1, 1), JAN_1_2024),
        Err(ApiError::ValidationError(_))
    ));
    assert!(matches!(
        svc.record_usage_at(5, request(10, i32::MAX, 1), JAN_1_2024),
        Err(ApiError::ValidationError(_))
    ));
    assert!(matches!(
        svc.record_usage_at(5, request(10, 1, 1), i64::MAX),
        Err(ApiError::ValidationError(_))
    ));
    // A 100-character name is accepted.
    let mut r = request(10, 1, 1);
    r.model_name = "m".repeat(100);
    assert!(svc.record_usage_at(5, r, JAN_1_2024).is_ok());
}

#[test]
fn interleaved_users_keep_their_own_order() {
    let mut svc = service();
    svc.record_usage_at(1, request(10, 1, 0), JAN_1_2024).unwrap();
    svc.record_usage_at(2, request(10, 2, 0), JAN_1_2024 + 1).unwrap();
    svc.record_usage_at(1, request(10, 3, 0), JAN_1_2024 + 2).unwrap();
    svc.record_usage_at(2, request(10, 4, 0), JAN_1_2024 + 3).unwrap();
    let mine: Vec<i32> = svc
        .repo
        .events()
        .iter()
        .filter(|e| e.user_id == 1)
        .map(|e| e.input_tokens)
        .collect();
    assert_eq!(mine, vec![1, 3]);
    let theirs: Vec<i32> = svc
        .repo
        .events()
        .iter()
        .filter(|e| e.user_id == 2)
        .map(|e| e.input_tokens)
        .collect();
    assert_eq!(theirs, vec![2, 4]);
}

#[test]
fn empty_window_gives_zero_stats() {
    let s = calculate_stats(&Vec::new(), 1, 0);
    assert_eq!(s.total_cost, 0);
    assert_eq!(s.total_tokens, 0);
    assert_eq!(s.total_requests, 0);
    assert_eq!(s.total_errors, 0);
    assert_eq!(s.error_rate, 0);
    assert_eq!(s.avg_response_time, None);
}

#[test]
fn stats_over_a_period() {
    let mut svc = service();
    let mut quiet = request(10, 0, 1000);
    quiet.response_time_ms = None;
    svc.record_usage_at(1, quiet, JAN_1_2024 - 3 * DAY).unwrap();
    svc.record_usage_at(1, request(10, 1500, 500), JAN_1_2024).unwrap();
    svc.record_usage_at(1, request(10, 1000, 0), JAN_1_2024 + 3600).unwrap();
    svc.record_usage_at(2, request(10, 1000, 0), JAN_1_2024 + 3600).unwrap();

    let day = svc.calculate_stats_at(1, "24h", JAN_1_2024 + 7200);
    assert_eq!(day.total_requests, 2);
    assert_eq!(day.total_tokens, 3000);
    assert_eq!(day.total_cost, 4);
    assert_eq!(day.total_errors, 0);
    assert_eq!(day.error_rate, 0);
    assert_eq!(day.avg_response_time, Some(120));

    let week = svc.calculate_stats_at(1, "7d", JAN_1_2024 + 7200);
    assert_eq!(week.total_requests, 3);
    assert_eq!(week.total_cost, 7);
    assert_eq!(week.avg_response_time, Some(120));
}

#[test]
fn error_rate_is_in_hundredths_of_a_percent() {
    let mut events = Vec::new();
    for i in 0..3 {
        events.push(ApiUsage {
            id: i + 1,
            user_id: 1,
            api_key_id: 10,
            timestamp: 100,
            input_tokens: 1,
            output_tokens: 1,
            total_tokens: 2,
            requests: 1,
            errors: if i == 0 { 1 } else { 0 },
            cost: 1,
            model_name: None,
            endpoint: None,
            status_code: None,
            response_time_ms: Some(10 * (i as i32 + 1)),
            metadata: None,
        });
    }
    let s = calculate_stats(&events, 1, 0);
    assert_eq!(s.total_errors, 1);
    assert_eq!(s.error_rate, 3333);
    assert_eq!(s.avg_response_time, Some(20));
}

#[test]
fn daily_totals_group_by_day_in_order() {
    let mut svc = service();
    svc.record_usage_at(1, request(10, 2000, 0), JAN_1_2024).unwrap();
    svc.record_usage_at(2, request(10, 9000, 0), JAN_1_2024 + DAY).unwrap();
    svc.record_usage_at(1, request(10, 1000, 0), JAN_1_2024 + 2 * DAY).unwrap();
    svc.record_usage_at(1, request(10, 3000, 0), JAN_1_2024 + 2 * DAY + 5).unwrap();
    let d = daily_costs(svc.repo.events(), 1, 0, None);
    let day0 = JAN_1_2024 / DAY;
    assert_eq!(d, vec![(day0, 2), (day0 + 2, 4)]);
    let none = daily_costs(svc.repo.events(), 1, 0, Some(77));
    assert!(none.is_empty());
}

#[test]
fn range_query_uses_parsed_bounds() {
    let mut svc = service();
    svc.record_usage_at(1, request(10, 1, 0), JAN_1_2024).unwrap();
    svc.record_usage_at(1, request(10, 2, 0), JAN_1_2024 + DAY).unwrap();
    svc.record_usage_at(1, request(10, 3, 0), JAN_1_2024 + 2 * DAY).unwrap();
    let got = svc.get_usage_between(
        1,
        Some("2024-01-02T00:00:00Z"),
        Some("2024-01-03T00:00:00+00:00"),
        None,
        JAN_1_2024 + 10 * DAY,
    );
    let tokens: Vec<i32> = got.iter().map(|e| e.input_tokens).collect();
    assert_eq!(tokens, vec![3, 2]);
    // A bound that does not parse falls back to its default window.
    let all = svc.get_usage_between(1, Some("yesterday"), None, None, JAN_1_2024 + 3 * DAY);
    assert_eq!(all.len(), 3);
}

#[test]
fn forecast_needs_seven_days_and_stores_nothing_otherwise() {
    let mut svc = service();
    let now = JAN_1_2024 + 10 * DAY;
    for d in (2..=7).rev() {
        svc.record_usage_at(1, request(10, 10_000, 0), now - d * DAY).unwrap();
    }
    let mut preds = PredictionService::new();
    let r = preds.generate_prediction_at(&svc.repo, 1, None, now, 42);
    assert!(matches!(r, Err(ApiError::InsufficientData(_))));
    assert!(preds.predictions().is_empty());

    svc.record_usage_at(1, request(10, 10_000, 0), now - DAY).unwrap();
    let p = preds.generate_prediction_at(&svc.repo, 1, None, now, 42).unwrap();
    assert_eq!(p.id, 42);
    assert_eq!(p.user_id, 1);
    assert_eq!(p.predicted_daily_cost, 10);
    assert_eq!(p.predicted_weekly_cost, 70);
    assert_eq!(p.predicted_monthly_cost, 300);
    assert_eq!(p.confidence_score, 9500);
    assert_eq!(p.model_used, "linear_regression");
    assert_eq!(preds.predictions().len(), 1);
}

fn clock_now() -> i64 {
    std::time::SystemTime::now()
        .duration_since(std::time::UNIX_EPOCH)
        .unwrap()
        .as_secs() as i64
}

#[test]
fn recording_and_forecasting_at_the_current_time() {
    let mut svc = service();
    let now = clock_now();
    for d in [8, 6, 5, 4, 3, 2, 1] {
        svc.record_usage_at(4, request(10, 10_000, 0), now - d * DAY).unwrap();
    }
    let before = clock_now();
    let u = svc.record_usage(3, request(10, 2000, 0)).unwrap();
    assert!(u.timestamp >= before && u.timestamp <= clock_now() + 1);
    assert_eq!(u.cost, 2);
    assert_eq!(u.id, 8);
    let mut preds = PredictionService::new();
    let p = preds.generate_prediction(&svc.repo, 4, None).unwrap();
    assert_eq!(p.user_id, 4);
    assert_eq!(p.predicted_daily_cost, 10);
    let q = preds.generate_prediction(&svc.repo, 4, Some(10)).unwrap();
    assert_ne!(p.id, q.id);
    assert_eq!(preds.predictions().len(), 2);

    let stats = svc.calculate_stats(4, "30d");
    assert_eq!(stats.total_requests, 7);
    let recent = svc.get_usage(4, None, None, None);
    assert_eq!(recent.len(), 6);
}

#[test]
fn per_key_totals_and_today() {
    let mut svc = service();
    svc.record_usage_at(1, request(10, 1500, 500), JAN_1_2024 - DAY).unwrap();
    svc.record_usage_at(2, request(10, 1000, 0), JAN_1_2024 + 60).unwrap();
    let s = key_usage_stats(svc.repo.events(), 10, JAN_1_2024);
    assert_eq!(s.total_requests, 2);
    assert_eq!(s.total_cost, 4);
    assert_eq!(s.requests_today, 1);
    assert_eq!(s.cost_today, 1);
    let none = key_usage_stats(svc.repo.events(), 11, JAN_1_2024);
    assert_eq!(none.total_requests, 0);
}

#[test]
fn ledger_time_never_runs_backwards() {
    let mut svc = service();
    let a = svc.record_usage_at(1, request(10, 1, 0), JAN_1_2024).unwrap();
    let b = svc.record_usage_at(1, request(10, 2, 0), JAN_1_2024 - 100).unwrap();
    assert_eq!(a.id, 1);
    assert_eq!(b.id, 2);
    assert_eq!(b.timestamp, JAN_1_2024);
    let c = svc.record_usage_at(1, request(10, 3, 0), JAN_1_2024 + 50).unwrap();
    assert_eq!(c.timestamp, JAN_1_2024 + 50);
    let got = svc.get_usage_at(1, Some(0), Some(JAN_1_2024 + 100), None, JAN_1_2024);
    let tokens: Vec<i32> = got.iter().map(|e| e.input_tokens).collect();
    assert_eq!(tokens, vec![3, 2, 1]);
}

#[test]
fn restore_checks_the_ledger_order() {
    let mut svc = service();
    svc.record_usage_at(1, request(10, 1, 0), JAN_1_2024).unwrap();
    svc.record_usage_at(1, request(10, 2, 0), JAN_1_2024 + 10).unwrap();
    let mut events: Vec<ApiUsage> = svc.repo.events().iter().map(|e| e.duplicate()).collect();
    assert!(UsageRepository::restore(events.iter().map(|e| e.duplicate()).collect(), Vec::new()).is_some());
    events.swap(0, 1);
    assert!(UsageRepository::restore(events, Vec::new()).is_none());
}
