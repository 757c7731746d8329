//! Station counts and forecasts, and the batch operations over them.
//!
//! A batch is a list of entries, each the key of a place with the counts
//! for it. Entries are handled in the order of the list, and an entry that
//! cannot be normalized is passed over: it never stops the batch.

use crate::database::{Database, PreferenceView};
use crate::evaluator::{
    alert_views, evaluate_user, spec_alerts, spec_pref_after, Alert, AlertView, EvalError,
};
use crate::normalizer::{count_fields, resolve, spec_count_fields, spec_resolve};
use crate::pollutant::{KindMap, PollutantKind};
use crate::reading::{Reading, ReadingView};
use crate::scorer::{score_levels, spec_score_levels, AccuracyReport, AccuracyReportView};
use vstd::prelude::*;

verus! {

/// Pollutant counts observed at a station, in canonical units.
#[derive(Clone, Copy, Debug, PartialEq, Eq, Structural)]
pub struct AQIData {
    pub pm25: i32,
    pub o3: i32,
    pub pm10: i32,
}

/// Pollutant counts forecast for a place, in canonical units.
#[derive(Clone, Copy, Debug, PartialEq, Eq, Structural)]
pub struct ForecastAQIData {
    pub pm25: i32,
    pub o3: i32,
    pub pm10: i32,
}

/// The levels that counts normalize to, or `None` where no count is valid.
pub open spec fn spec_count_levels(pm25: i32, o3: i32, pm10: i32) -> Option<
    Map<PollutantKind, u32>,
> {
    match spec_resolve(spec_count_fields(pm25, o3, pm10)) {
        Ok(levels) => Some(levels),
        Err(_) => None,
    }
}

/// The reading that station counts for `location_key` normalize to.
pub open spec fn spec_station_reading(
    location_key: Seq<char>,
    timestamp: u64,
    data: AQIData,
) -> Option<ReadingView> {
    match spec_count_levels(data.pm25, data.o3, data.pm10) {
        Some(pollutant_levels) => Some(ReadingView { location_key, timestamp, pollutant_levels }),
        None => None,
    }
}

/// The alerts that evaluating the entries one after the other raises for a
/// user, and the user's record after the last of them. Each entry is
/// evaluated against the record as the entries before it left it.
pub open spec fn spec_process(
    pref: PreferenceView,
    entries: Seq<(String, AQIData)>,
    now: u64,
    cooldown: u64,
) -> (Seq<AlertView>, PreferenceView)
    decreases entries.len(),
{
    if entries.len() == 0 {
        (Seq::empty(), pref)
    } else {
        let (alerts, current) = spec_process(pref, entries.drop_last(), now, cooldown);
        let entry = entries.last();
        match spec_station_reading(entry.0@, now, entry.1) {
            Some(reading) => (
                alerts + spec_alerts(current, reading, now, cooldown),
                spec_pref_after(current, reading, now, cooldown),
            ),
            None => (alerts, current),
        }
    }
}

/// The levels that counts normalize to, or `None` where no count is valid.
fn count_levels(pm25: i32, o3: i32, pm10: i32) -> (r: Option<KindMap<u32>>)
    ensures
        match spec_count_levels(pm25, o3, pm10) {
            Some(levels) => r matches Some(found) && found@ == levels,
            None => r is None,
        },
{
    let fields = count_fields(pm25, o3, pm10);
    match resolve(&fields) {
        Ok(levels) => Some(levels),
        Err(_) => None,
    }
}

/// Evaluates a batch of station counts, taken at `now`, for one user.
///
/// The entries are evaluated in order against the user's record; an entry
/// for another place than the user's raises nothing, and an entry without a
/// valid count is passed over. Returns the alerts that are due, and stores
/// the user's record with the time of each of them. A user without a record
/// gets no alert, and nothing is stored.
///
/// Fails with `StoreFailure` where the store cannot be used; then no alert
/// is handed out and the store is unchanged.
pub fn process_aqi_data(
    store: &mut Database,
    user_id: &str,
    aqi_data: &Vec<(String, AQIData)>,
    now: u64,
    cooldown: u64,
) -> (r: Result<Vec<Alert>, EvalError>)
    requires
        old(store).wf(),
    ensures
        final(store).wf(),
        !old(store)@.ready ==> (r matches Err(EvalError::StoreFailure) && final(store)@
            == old(store)@),
        old(store)@.ready ==> match old(store)@.get(user_id@) {
            None => r matches Ok(alerts) && alerts@.len() == 0 && final(store)@ == old(store)@,
            Some(pref) => r matches Ok(alerts) && alert_views(alerts@) == spec_process(
                pref,
                aqi_data@,
                now,
                cooldown,
            ).0 && final(store)@ == old(store)@.set(
                spec_process(pref, aqi_data@, now, cooldown).1,
            ),
        },
{
    let mut pref = match store.get_preference(user_id) {
        Err(_) => {
            return Err(EvalError::StoreFailure);
        },
        Ok(None) => {
            return Ok(Vec::new());
        },
        Ok(Some(pref)) => pref,
    };
    let ghost stored = pref@;
    let mut alerts: Vec<Alert> = Vec::new();
    let n = aqi_data.len();
    let mut i: usize = 0;
    assert(aqi_data@.take(0) =~= Seq::<(String, AQIData)>::empty());
    assert(alert_views(alerts@) =~= Seq::<AlertView>::empty());
    while i < n
        invariant
            i <= n,
            n == aqi_data@.len(),
            alert_views(alerts@) == spec_process(stored, aqi_data@.take(i as int), now, cooldown).0,
            pref@ == spec_process(stored, aqi_data@.take(i as int), now, cooldown).1,
        decreases n - i,
    {
        proof {
            let next = aqi_data@.take(i + 1);
            assert(next.drop_last() =~= aqi_data@.take(i as int));
            assert(next.last() == aqi_data@[i as int]);
        }
        let entry = &aqi_data[i];
        match count_levels(entry.1.pm25, entry.1.o3, entry.1.pm10) {
            Some(pollutant_levels) => {
                let reading = Reading {
                    location_key: entry.0.clone(),
                    timestamp: now,
                    pollutant_levels,
                };
                let (mut found, state) = evaluate_user(&pref, &reading, now, cooldown);
                pref.last_alert_at = state;
                let ghost earlier = alerts@;
                let ghost raised = found@;
                alerts.append(&mut found);
                assert(alert_views(alerts@) =~= alert_views(earlier) + alert_views(raised));
            },
            None => {},
        }
        i = i + 1;
    }
    assert(aqi_data@.take(n as int) =~= aqi_data@);
    // A ready store takes the record.
    if store.set_preference(pref).is_err() {
        return Err(EvalError::StoreFailure);
    }
    Ok(alerts)
}

/// Whether `i` is the first entry of `entries` for `location_key`.
pub open spec fn is_first_entry_at(
    entries: Seq<(String, AQIData)>,
    location_key: Seq<char>,
    i: int,
) -> bool {
    &&& 0 <= i < entries.len()
    &&& entries[i].0@ == location_key
    &&& forall|j: int| 0 <= j < i ==> (#[trigger] entries[j]).0@ != location_key
}

/// The counts of the first entry for `location_key`, if there is one.
pub open spec fn spec_actual_at(entries: Seq<(String, AQIData)>, location_key: Seq<char>) -> Option<
    AQIData,
> {
    if exists|i: int| is_first_entry_at(entries, location_key, i) {
        Some(entries[choose|i: int| is_first_entry_at(entries, location_key, i)].1)
    } else {
        None
    }
}

/// The report on one forecast: the score of its levels against those of
/// the first actual entry for the same place. `None` where there is no such
/// entry, where either side has no valid count, or where no pollutant is
/// comparable.
pub open spec fn spec_forecast_report(
    location_key: Seq<char>,
    forecast: ForecastAQIData,
    actual_data: Seq<(String, AQIData)>,
) -> Option<AccuracyReportView> {
    match spec_actual_at(actual_data, location_key) {
        None => None,
        Some(actual) => match (
            spec_count_levels(forecast.pm25, forecast.o3, forecast.pm10),
            spec_count_levels(actual.pm25, actual.o3, actual.pm10),
        ) {
            (Some(predicted), Some(observed)) => match spec_score_levels(predicted, observed) {
                Some((per_pollutant_error, overall_error)) => Some(
                    AccuracyReportView { location_key, per_pollutant_error, overall_error },
                ),
                None => None,
            },
            _ => None,
        },
    }
}

/// The reports on the forecasts that have one, in the order of the
/// forecasts.
pub open spec fn spec_forecast_accuracy(
    forecast_data: Seq<(String, ForecastAQIData)>,
    actual_data: Seq<(String, AQIData)>,
) -> Seq<AccuracyReportView>
    decreases forecast_data.len(),
{
    if forecast_data.len() == 0 {
        Seq::empty()
    } else {
        let earlier = spec_forecast_accuracy(forecast_data.drop_last(), actual_data);
        let entry = forecast_data.last();
        match spec_forecast_report(entry.0@, entry.1, actual_data) {
            Some(report) => earlier.push(report),
            None => earlier,
        }
    }
}

/// The views of a sequence of reports.
pub open spec fn report_views(reports: Seq<AccuracyReport>) -> Seq<AccuracyReportView> {
    reports.map_values(|r: AccuracyReport| r@)
}

/// The counts of the first entry for `location_key`.
fn actual_at(entries: &Vec<(String, AQIData)>, location_key: &String) -> (r: Option<AQIData>)
    ensures
        r == spec_actual_at(entries@, location_key@),
{
    let n = entries.len();
    let mut i: usize = 0;
    while i < n
        invariant
            i <= n,
            n == entries@.len(),
            forall|j: int| 0 <= j < i ==> (#[trigger] entries@[j]).0@ != location_key@,
        decreases n - i,
    {
        if entries[i].0 == *location_key {
            proof {
                let first = i as int;
                assert(is_first_entry_at(entries@, location_key@, first));
                let chosen = choose|c: int| is_first_entry_at(entries@, location_key@, c);
                if chosen < first {
                    assert(entries@[chosen].0@ != location_key@);
                } else if first < chosen {
                    assert(entries@[first].0@ != location_key@);
                }
            }
            return Some(entries[i].1);
        }
        i = i + 1;
    }
    None
}

/// Scores each forecast against the counts that were observed for the same
/// place.
///
/// A forecast is scored against the first entry of `actual_data` for its
/// place, by the relative error of each pollutant and their mean. A
/// forecast is left out where no counts were observed for its place, where
/// it or the observation has no valid count, or where no pollutant is
/// comparable. The reports come in the order of the forecasts.
pub fn calculate_forecast_accuracy(
    forecast_data: &Vec<(String, ForecastAQIData)>,
    actual_data: &Vec<(String, AQIData)>,
) -> (reports: Vec<AccuracyReport>)
    ensures
        report_views(reports@) == spec_forecast_accuracy(forecast_data@, actual_data@),
{
    let mut reports: Vec<AccuracyReport> = Vec::new();
    let n = forecast_data.len();
    let mut i: usize = 0;
    assert(forecast_data@.take(0) =~= Seq::<(String, ForecastAQIData)>::empty());
    assert(report_views(reports@) =~= Seq::<AccuracyReportView>::empty());
    while i < n
        invariant
            i <= n,
            n == forecast_data@.len(),
            report_views(reports@) == spec_forecast_accuracy(
                forecast_data@.take(i as int),
                actual_data@,
            ),
        decreases n - i,
    {
        proof {
            let next = forecast_data@.take(i + 1);
            assert(next.drop_last() =~= forecast_data@.take(i as int));
            assert(next.last() == forecast_data@[i as int]);
        }
        let entry = &forecast_data[i];
        match forecast_report(&entry.0, entry.1, actual_data) {
            Some(report) => {
                let ghost earlier = reports@;
                reports.push(report);
                assert(report_views(reports@) =~= report_views(earlier).push(report@));
            },
            None => {},
        }
        i = i + 1;
    }
    assert(forecast_data@.take(n as int) =~= forecast_data@);
    reports
}

/// The report on one forecast, where it has one.
pub fn forecast_report(
    location_key: &String,
    forecast: ForecastAQIData,
    actual_data: &Vec<(String, AQIData)>,
) -> (r: Option<AccuracyReport>)
    ensures
        match spec_forecast_report(location_key@, forecast, actual_data@) {
            Some(report) => r matches Some(found) && found@ == report,
            None => r is None,
        },
{
    let actual = match actual_at(actual_data, location_key) {
        Some(actual) => actual,
        None => {
            return None;
        },
    };
    let predicted = count_levels(forecast.pm25, forecast.o3, forecast.pm10);
    let observed = count_levels(actual.pm25, actual.o3, actual.pm10);
    match (predicted, observed) {
        (Some(predicted), Some(observed)) => match score_levels(&predicted, &observed) {
            Some((per_pollutant_error, overall_error)) => Some(
                AccuracyReport {
                    location_key: location_key.clone(),
                    per_pollutant_error,
                    overall_error,
                },
            ),
            None => None,
        },
        _ => None,
    }
}

} // verus!
