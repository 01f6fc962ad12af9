use api_usage_analyzer::errors::ApiError;
use api_usage_analyzer::forecast::forecast_costs;

#[test]
fn six_days_is_insufficient() {
    let r = forecast_costs(&vec![100u128; 6]);
    assert!(matches!(r, Err(ApiError::InsufficientData(_))));
}

#[test]
fn seven_days_is_enough() {
    let f = forecast_costs(&vec![100u128; 7]).unwrap();
    assert_eq!(f.daily, 100);
    assert_eq!(f.weekly, 700);
    assert_eq!(f.monthly, 3000);
    assert_eq!(f.confidence, 9500);
}

#[test]
fn trend_doubles_prediction() {
    // $10 a day for a week, then $20 a day: older average 10, recent 20,
    // trend 2, mean 15, prediction $30 a day.
    let mut costs = vec![1000u128; 7];
    costs.extend(vec![2000u128; 7]);
    let f = forecast_costs(&costs).unwrap();
    assert_eq!(f.daily, 3000);
    assert_eq!(f.weekly, 21000);
    assert_eq!(f.monthly, 90000);
    // Standard deviation 5 over mean 15: confidence 1 - 1/3.
    assert_eq!(f.confidence, 6666);
}

#[test]
fn zero_series_has_floor_confidence() {
    let f = forecast_costs(&vec![0u128; 10]).unwrap();
    assert_eq!(f.daily, 0);
    assert_eq!(f.confidence, 5000);
}

#[test]
fn volatile_series_is_floored() {
    let costs = vec![0u128, 0, 0, 0, 0, 0, 1000];
    let f = forecast_costs(&costs).unwrap();
    assert_eq!(f.confidence, 5000);
    // Under fourteen days the windows overlap: trend 1, mean rounded half up.
    assert_eq!(f.daily, 143);
}

#[test]
fn confidence_stays_in_bounds() {
    let series: Vec<Vec<u128>> = vec![
        vec![1, 2, 3, 4, 5, 6, 7],
        vec![500, 520, 480, 510, 490, 505, 495, 500],
        vec![1, 1_000_000, 1, 1_000_000, 1, 1_000_000, 1],
    ];
    for s in series {
        let f = forecast_costs(&s).unwrap();
        assert!(f.confidence >= 5000 && f.confidence <= 9500);
    }
}

#[test]
fn oversized_series_is_internal_error() {
    let r = forecast_costs(&vec![2_000_000_000_000u128; 7]);
    assert!(matches!(r, Err(ApiError::Internal(_))));
    let r = forecast_costs(&vec![1u128; 400]);
    assert!(matches!(r, Err(ApiError::Internal(_))));
}
