use api_usage_analyzer::api_types::{key_preview, ListApiKeysQuery};
use api_usage_analyzer::hub::{BroadcastHub, WsMessage};
use api_usage_analyzer::hub::Received;
use api_usage_analyzer::jobs::{
    check_alerts_at, run_aggregation_at, run_predictions_at, JobKind, JobRunner, TickDecision,
};
use api_usage_analyzer::prediction_service::PredictionService;
use api_usage_analyzer::models::{ApiKey, Budget, CreateUsageRequest};
use api_usage_analyzer::store::UsageRepository;
use api_usage_analyzer::usage_service::UsageService;

const NOW: i64 = 1_704_067_200;

fn seeded() -> UsageService {
    let mut repo = UsageRepository::new();
    repo.add_api_key(ApiKey {
        id: 10,
        user_id: 1,
        name: "k".to_string(),
        provider: "p".to_string(),
        encrypted_key: "x".to_string(),
        cost_per_1k_input: 1_000_000,
        cost_per_1k_output: 0,
        is_active: true,
        created_at: 0,
        updated_at: 0,
    });
    let mut svc = UsageService::new(repo, BroadcastHub::new(10));
    let req = CreateUsageRequest {
        api_key_id: 10,
        input_tokens: 8000,
        output_tokens: 0,
        model_name: "m".to_string(),
        endpoint: None,
        status_code: None,
        response_time_ms: None,
        metadata: None,
    };
    svc.record_usage_at(1, req, NOW - 60).unwrap();
    svc
}

fn budget(limit: u64, threshold: u32) -> Budget {
    Budget {
        id: 1,
        user_id: 1,
        api_key_id: None,
        limit_type: "1d".to_string(),
        limit_amount: limit,
        alert_threshold: threshold,
        created_at: 0,
        updated_at: 0,
    }
}

#[test]
fn running_job_skips_tick_and_others_are_untouched() {
    let mut runner = JobRunner::new();
    assert_eq!(runner.on_tick(JobKind::Forecast), TickDecision::Run);
    assert_eq!(runner.on_tick(JobKind::Forecast), TickDecision::Skip);
    assert_eq!(runner.forecast.skipped, 1);
    assert_eq!(runner.on_tick(JobKind::Aggregation), TickDecision::Run);
    runner.on_finish(JobKind::Forecast, false);
    assert!(!runner.forecast.running);
    assert_eq!(runner.forecast.failures, 1);
    assert_eq!(runner.forecast.runs, 1);
    assert!(runner.aggregation.running);
    assert_eq!(runner.alert_check.runs, 0);
    assert_eq!(runner.on_tick(JobKind::Forecast), TickDecision::Run);
}

#[test]
fn schedules() {
    assert_eq!(JobKind::Aggregation.schedule(), "0 0 * * * *");
    assert_eq!(JobKind::Forecast.schedule(), "0 0 0 * * *");
    assert_eq!(JobKind::AlertCheck.schedule(), "0 */15 * * * *");
}

#[test]
fn budget_alert_when_threshold_reached() {
    let svc = seeded();
    // $8.00 spent today.
    let alerts = check_alerts_at(&svc.repo, &vec![budget(1000, 80), budget(1000, 81)], NOW);
    assert_eq!(alerts.len(), 1);
    match &alerts[0] {
        WsMessage::AlertNotification { user_id, alert_type, message } => {
            assert_eq!(*user_id, 1);
            assert_eq!(alert_type, "budget_threshold");
            assert_eq!(message, "Spent $8.00 of the $10.00 budget");
        }
        _ => panic!("expected an alert"),
    }
}

#[test]
fn aggregation_job_covers_each_user() {
    let svc = seeded();
    let stats = run_aggregation_at(&svc.repo, &vec![1, 2], NOW);
    assert_eq!(stats.len(), 2);
    assert_eq!(stats[0].total_cost, 800);
    assert_eq!(stats[1].total_requests, 0);
}

#[test]
fn key_listing_paging() {
    let w = ListApiKeysQuery { page: None, per_page: None }.window();
    assert_eq!((w.page, w.per_page, w.offset), (1, 10, 0));
    let w = ListApiKeysQuery { page: Some(3), per_page: Some(20) }.window();
    assert_eq!((w.page, w.per_page, w.offset), (3, 20, 40));
    let w = ListApiKeysQuery { page: Some(-4), per_page: Some(500) }.window();
    assert_eq!((w.page, w.per_page, w.offset), (1, 100, 0));
    let w = ListApiKeysQuery { page: Some(i64::MAX), per_page: Some(0) }.window();
    assert_eq!((w.page, w.per_page, w.offset), (i64::MAX, 1, i64::MAX - 1));
}

#[test]
fn key_preview_masks_all_but_last_four() {
    assert_eq!(key_preview("abcdef").as_deref(), Some("****cdef"));
    assert_eq!(key_preview("abcd").as_deref(), Some("****abcd"));
    assert_eq!(key_preview("abc"), None);
}

#[test]
fn forecast_job_stores_and_announces_each_success() {
    let mut svc = seeded();
    for d in 1..=7 {
        let req = CreateUsageRequest {
            api_key_id: 10,
            input_tokens: 100,
            output_tokens: 0,
            model_name: "m".to_string(),
            endpoint: None,
            status_code: None,
            response_time_ms: None,
            metadata: None,
        };
        svc.record_usage_at(2, req, NOW + d * 86_400).unwrap();
    }
    let later = NOW + 8 * 86_400;
    let sub = svc.hub.subscribe();
    let mut preds = PredictionService::new();
    let stored = run_predictions_at(&mut preds, &svc.repo, &mut svc.hub, &vec![1, 2], later, &vec![100, 200]);
    assert_eq!(stored, 1);
    assert_eq!(preds.predictions().len(), 1);
    assert_eq!(preds.predictions()[0].user_id, 2);
    assert_eq!(preds.predictions()[0].id, 200);
    assert_eq!(preds.predictions()[0].predicted_daily_cost, 10);
    match svc.hub.receive(sub) {
        Received::Event(WsMessage::PredictionUpdate { user_id, daily_cost, weekly_cost, monthly_cost }) => {
            assert_eq!((user_id, daily_cost, weekly_cost, monthly_cost), (2, 10, 70, 300));
        }
        _ => panic!("expected a prediction update"),
    }
    assert!(matches!(svc.hub.receive(sub), Received::Empty));
}
