use air_quality_alerts::data_processor::{
    calculate_forecast_accuracy, forecast_report, process_aqi_data, AQIData, ForecastAQIData,
};
use air_quality_alerts::database::Database;
use air_quality_alerts::evaluator::EvalError;
use air_quality_alerts::pollutant::PollutantKind;

const HOUR: u64 = 3_600;
const T0: u64 = 1_700_000_000;

fn store() -> Database {
    let mut db = Database::new("preferences.db");
    db.initialize();
    // overall index 100, ozone 70, PM2.5 35, PM10 50
    db.set_user_preference("ann", "94110", 100, 70, 35, 50).unwrap();
    db.set_user_preference("bob", "10001", 100, 70, 35, 50).unwrap();
    db
}

#[test]
fn batch_alerts_for_the_users_place_only() {
    let mut db = store();
    let batch = vec![
        ("10001".to_string(), AQIData { pm25: 500, o3: 500, pm10: 500 }),
        ("94110".to_string(), AQIData { pm25: 40, o3: 70, pm10: 51 }),
    ];
    let alerts = process_aqi_data(&mut db, "ann", &batch, T0, HOUR).unwrap();
    assert_eq!(alerts.len(), 2);
    assert_eq!(alerts[0].user_id, "ann");
    assert_eq!(alerts[0].location_key, "94110");
    assert_eq!(alerts[0].pollutant, PollutantKind::Pm25);
    assert_eq!(alerts[0].observed_value, 40);
    assert_eq!(alerts[0].threshold_value, 35);
    assert_eq!(alerts[0].severity, 1_142_857);
    assert_eq!(alerts[0].timestamp, T0);
    assert_eq!(alerts[1].pollutant, PollutantKind::Pm10);
    assert_eq!(alerts[1].severity, 1_020_000);
    let ann = db.get_preference("ann").unwrap().unwrap();
    assert_eq!(ann.last_alert_at.get(PollutantKind::Pm25), Some(T0));
    assert_eq!(ann.last_alert_at.get(PollutantKind::Pm10), Some(T0));
    assert_eq!(ann.last_alert_at.get(PollutantKind::O3), None);
    assert!(db.get_preference("bob").unwrap().unwrap().last_alert_at.is_empty());
}

#[test]
fn batch_respects_the_cooldown_across_calls_and_entries() {
    let mut db = store();
    let batch = vec![
        ("94110".to_string(), AQIData { pm25: 40, o3: 0, pm10: 0 }),
        ("94110".to_string(), AQIData { pm25: 45, o3: 80, pm10: 0 }),
    ];
    let alerts = process_aqi_data(&mut db, "ann", &batch, T0, HOUR).unwrap();
    let kinds: Vec<(PollutantKind, u32)> =
        alerts.iter().map(|a| (a.pollutant, a.observed_value)).collect();
    assert_eq!(kinds, vec![(PollutantKind::Pm25, 40), (PollutantKind::O3, 80)]);
    assert_eq!(process_aqi_data(&mut db, "ann", &batch, T0 + 1, HOUR), Ok(vec![]));
    let later = process_aqi_data(&mut db, "ann", &batch, T0 + HOUR, HOUR).unwrap();
    assert_eq!(later.len(), 2);
}

#[test]
fn batch_passes_over_entries_without_a_valid_count() {
    let mut db = store();
    let batch = vec![
        ("94110".to_string(), AQIData { pm25: -1, o3: -1, pm10: -1 }),
        ("94110".to_string(), AQIData { pm25: -1, o3: 71, pm10: -1 }),
    ];
    let alerts = process_aqi_data(&mut db, "ann", &batch, T0, HOUR).unwrap();
    assert_eq!(alerts.len(), 1);
    assert_eq!(alerts[0].pollutant, PollutantKind::O3);
}

#[test]
fn batch_for_an_unknown_user_is_empty() {
    let mut db = store();
    let before = db.clone();
    let batch = vec![("94110".to_string(), AQIData { pm25: 400, o3: 400, pm10: 400 })];
    assert_eq!(process_aqi_data(&mut db, "zed", &batch, T0, HOUR), Ok(vec![]));
    assert_eq!(db, before);
}

#[test]
fn empty_batch_changes_nothing() {
    let mut db = store();
    let before = db.clone();
    assert_eq!(process_aqi_data(&mut db, "ann", &vec![], T0, HOUR), Ok(vec![]));
    assert_eq!(db, before);
}

#[test]
fn batch_on_an_unavailable_store_fails() {
    let mut db = Database::new("preferences.db");
    let batch = vec![("94110".to_string(), AQIData { pm25: 400, o3: 400, pm10: 400 })];
    assert_eq!(process_aqi_data(&mut db, "ann", &batch, T0, HOUR), Err(EvalError::StoreFailure));
    assert_eq!(db, Database::new("preferences.db"));
}

#[test]
fn forecasts_are_scored_by_place() {
    let forecasts = vec![
        ("94110".to_string(), ForecastAQIData { pm25: 50, o3: 20, pm10: 30 }),
        ("60601".to_string(), ForecastAQIData { pm25: 50, o3: 20, pm10: 30 }),
        ("10001".to_string(), ForecastAQIData { pm25: 10, o3: 10, pm10: 10 }),
    ];
    let actuals = vec![
        ("10001".to_string(), AQIData { pm25: 10, o3: 20, pm10: 40 }),
        ("94110".to_string(), AQIData { pm25: 40, o3: 0, pm10: 60 }),
        ("94110".to_string(), AQIData { pm25: 1, o3: 1, pm10: 1 }),
    ];
    let reports = calculate_forecast_accuracy(&forecasts, &actuals);
    assert_eq!(reports.len(), 2);
    assert_eq!(reports[0].location_key, "94110");
    assert_eq!(reports[0].per_pollutant_error.get(PollutantKind::Pm25), Some(250_000));
    assert_eq!(reports[0].per_pollutant_error.get(PollutantKind::O3), None);
    assert_eq!(reports[0].per_pollutant_error.get(PollutantKind::Pm10), Some(500_000));
    assert_eq!(reports[0].overall_error, 375_000);
    assert_eq!(reports[1].location_key, "10001");
    assert_eq!(reports[1].per_pollutant_error.get(PollutantKind::Pm25), Some(0));
    assert_eq!(reports[1].per_pollutant_error.get(PollutantKind::O3), Some(500_000));
    assert_eq!(reports[1].per_pollutant_error.get(PollutantKind::Pm10), Some(750_000));
    assert_eq!(reports[1].overall_error, 416_666);
}

#[test]
fn forecasts_without_a_score_are_left_out() {
    let forecasts = vec![
        ("a".to_string(), ForecastAQIData { pm25: -1, o3: -1, pm10: -1 }),
        ("b".to_string(), ForecastAQIData { pm25: 5, o3: 5, pm10: 5 }),
        ("c".to_string(), ForecastAQIData { pm25: 5, o3: -5, pm10: -5 }),
        ("d".to_string(), ForecastAQIData { pm25: 5, o3: 5, pm10: 5 }),
    ];
    let actuals = vec![
        ("a".to_string(), AQIData { pm25: 1, o3: 1, pm10: 1 }),
        ("b".to_string(), AQIData { pm25: 0, o3: 0, pm10: 0 }),
        ("c".to_string(), AQIData { pm25: -1, o3: 3, pm10: 3 }),
        ("d".to_string(), AQIData { pm25: -1, o3: -1, pm10: -1 }),
    ];
    assert_eq!(calculate_forecast_accuracy(&forecasts, &actuals), vec![]);
    assert_eq!(calculate_forecast_accuracy(&forecasts, &vec![]), vec![]);
    assert_eq!(calculate_forecast_accuracy(&vec![], &actuals), vec![]);
}

#[test]
fn one_forecast_against_the_first_observation() {
    let actuals = vec![
        ("x".to_string(), AQIData { pm25: 20, o3: 20, pm10: 20 }),
        ("x".to_string(), AQIData { pm25: 10, o3: 10, pm10: 10 }),
    ];
    let forecast = ForecastAQIData { pm25: 10, o3: 20, pm10: 25 };
    let report = forecast_report(&"x".to_string(), forecast, &actuals).unwrap();
    assert_eq!(report.location_key, "x");
    assert_eq!(report.per_pollutant_error.get(PollutantKind::Pm25), Some(500_000));
    assert_eq!(report.per_pollutant_error.get(PollutantKind::O3), Some(0));
    assert_eq!(report.per_pollutant_error.get(PollutantKind::Pm10), Some(250_000));
    assert_eq!(report.overall_error, 250_000);
    assert_eq!(forecast_report(&"y".to_string(), forecast, &actuals), None);
}
