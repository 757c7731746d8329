//! Scores a forecast against what was observed later.
//!
//! For each pollutant that both readings carry, the relative error is the
//! distance between forecast and actual level over the actual level, in
//! millionths and rounded down. A pollutant whose actual level is zero has
//! no relative error and is left out, as is one that only one reading
//! carries. The overall error is the mean of the errors that are left,
//! rounded down.

use crate::pollutant::{lemma_view_len, KindMap, PollutantKind};
use crate::ratio::{abs_diff, lemma_millionths_bounds, millionths, spec_abs_diff, spec_millionths};
use crate::reading::{Reading, ReadingView};
use vstd::prelude::*;

verus! {

/// Why a forecast could not be scored.
#[derive(Clone, Copy, Debug, PartialEq, Eq, Structural)]
pub enum ScoreError {
    /// Forecast and actual reading are for different places.
    LocationMismatch,
    /// No pollutant has a relative error: none is carried by both readings
    /// with an actual level above zero.
    NoComparablePollutants,
}

/// How far a forecast was off, for one place.
#[derive(Clone, Debug, PartialEq, Eq)]
pub struct AccuracyReport {
    pub location_key: String,
    /// The relative error of each comparable pollutant, in millionths.
    pub per_pollutant_error: KindMap<u64>,
    /// The mean of the relative errors, in millionths.
    pub overall_error: u64,
}

/// What an [`AccuracyReport`] holds, as mathematical values.
pub struct AccuracyReportView {
    pub location_key: Seq<char>,
    pub per_pollutant_error: Map<PollutantKind, u64>,
    pub overall_error: u64,
}

impl View for AccuracyReport {
    type V = AccuracyReportView;

    open spec fn view(&self) -> AccuracyReportView {
        AccuracyReportView {
            location_key: self.location_key@,
            per_pollutant_error: self.per_pollutant_error@,
            overall_error: self.overall_error,
        }
    }
}

/// Whether `kind` has a relative error: both readings carry it and the
/// actual level is not zero.
pub open spec fn is_comparable(
    forecast: Map<PollutantKind, u32>,
    actual: Map<PollutantKind, u32>,
    kind: PollutantKind,
) -> bool {
    &&& forecast.contains_key(kind)
    &&& actual.contains_key(kind)
    &&& actual[kind] > 0
}

/// `|forecast - actual| / actual`, in millionths and rounded down.
pub open spec fn spec_relative_error(forecast: u32, actual: u32) -> u64
    recommends
        actual > 0,
{
    spec_millionths(spec_abs_diff(forecast as int, actual as int), actual as int) as u64
}

/// The relative error of every comparable pollutant.
pub open spec fn spec_errors(
    forecast: Map<PollutantKind, u32>,
    actual: Map<PollutantKind, u32>,
) -> Map<PollutantKind, u64> {
    Map::new(
        |k: PollutantKind| is_comparable(forecast, actual, k),
        |k: PollutantKind| spec_relative_error(forecast[k], actual[k]),
    )
}

/// The error of `kind` where there is one, else zero.
pub open spec fn spec_error_or_zero(errors: Map<PollutantKind, u64>, kind: PollutantKind) -> int {
    if errors.contains_key(kind) {
        errors[kind] as int
    } else {
        0
    }
}

/// The sum of the errors.
pub open spec fn spec_error_sum(errors: Map<PollutantKind, u64>) -> int {
    spec_error_or_zero(errors, PollutantKind::Pm25) + spec_error_or_zero(
        errors,
        PollutantKind::Pm10,
    ) + spec_error_or_zero(errors, PollutantKind::O3) + spec_error_or_zero(
        errors,
        PollutantKind::Aqi,
    )
}

/// The arithmetic mean of the errors, rounded down.
pub open spec fn spec_mean_error(errors: Map<PollutantKind, u64>) -> int
    recommends
        errors.dom().len() > 0,
{
    spec_error_sum(errors) / (errors.dom().len() as int)
}

/// The errors of a forecast against the actual levels and their mean, or
/// `None` where no pollutant is comparable.
pub open spec fn spec_score_levels(
    forecast: Map<PollutantKind, u32>,
    actual: Map<PollutantKind, u32>,
) -> Option<(Map<PollutantKind, u64>, u64)> {
    let errors = spec_errors(forecast, actual);
    if errors == Map::<PollutantKind, u64>::empty() {
        None
    } else {
        Some((errors, spec_mean_error(errors) as u64))
    }
}

/// The report on a forecast, or why there is none.
pub open spec fn spec_score(forecast: ReadingView, actual: ReadingView) -> Result<
    AccuracyReportView,
    ScoreError,
> {
    if forecast.location_key != actual.location_key {
        Err(ScoreError::LocationMismatch)
    } else {
        match spec_score_levels(forecast.pollutant_levels, actual.pollutant_levels) {
            None => Err(ScoreError::NoComparablePollutants),
            Some((errors, overall)) => Ok(
                AccuracyReportView {
                    location_key: actual.location_key,
                    per_pollutant_error: errors,
                    overall_error: overall,
                },
            ),
        }
    }
}

/// A relative error is at most the scaled distance, which fits in 52 bits.
pub proof fn lemma_relative_error_bound(forecast: u32, actual: u32)
    requires
        actual > 0,
    ensures
        spec_millionths(spec_abs_diff(forecast as int, actual as int), actual as int)
            == spec_relative_error(forecast, actual),
        spec_relative_error(forecast, actual) <= 0xffff_ffff * 1_000_000,
        forecast == actual ==> spec_relative_error(forecast, actual) == 0,
{
    lemma_millionths_bounds(spec_abs_diff(forecast as int, actual as int), actual as int);
}

/// The relative error of `kind`, where it has one.
pub fn relative_error(forecast: &KindMap<u32>, actual: &KindMap<u32>, kind: PollutantKind) -> (r:
    Option<u64>)
    ensures
        r == (if is_comparable(forecast@, actual@, kind) {
            Some(spec_relative_error(forecast@[kind], actual@[kind]))
        } else {
            None
        }),
        r matches Some(e) ==> e <= 0xffff_ffff * 1_000_000,
{
    match (forecast.get(kind), actual.get(kind)) {
        (Some(predicted), Some(observed)) => {
            if observed == 0 {
                None
            } else {
                proof {
                    lemma_relative_error_bound(predicted, observed);
                }
                Some(millionths(abs_diff(predicted, observed), observed))
            }
        },
        _ => None,
    }
}

/// The value of an error that may be missing: zero where it is.
fn error_or_zero(error: Option<u64>) -> (r: u64)
    ensures
        r == (match error {
            Some(e) => e,
            None => 0,
        }),
{
    match error {
        Some(e) => e,
        None => 0,
    }
}

/// Scores forecast levels against actual levels: the relative error of each
/// comparable pollutant and their mean, or `None` where no pollutant is
/// comparable.
pub fn score_levels(forecast: &KindMap<u32>, actual: &KindMap<u32>) -> (r: Option<
    (KindMap<u64>, u64),
>)
    ensures
        match spec_score_levels(forecast@, actual@) {
            Some((errors, overall)) => r matches Some(found) && found.0@ == errors && found.1
                == overall,
            None => r is None,
        },
{
    let pm25 = relative_error(forecast, actual, PollutantKind::Pm25);
    let pm10 = relative_error(forecast, actual, PollutantKind::Pm10);
    let o3 = relative_error(forecast, actual, PollutantKind::O3);
    let aqi = relative_error(forecast, actual, PollutantKind::Aqi);
    let errors = KindMap { pm25, pm10, o3, aqi };
    assert(errors@ =~= spec_errors(forecast@, actual@));
    let count = errors.len();
    proof {
        lemma_view_len(errors@);
    }
    if count == 0 {
        return None;
    }
    let sum: u64 = error_or_zero(pm25) + error_or_zero(pm10) + error_or_zero(o3) + error_or_zero(
        aqi,
    );
    assert(sum == spec_error_sum(errors@));
    let overall: u64 = sum / (count as u64);
    Some((errors, overall))
}

/// Scores a forecast against the reading that was observed for the same
/// place.
///
/// The report holds the relative error of every pollutant that both
/// readings carry with an actual level above zero, and the mean of these
/// errors. Fails with `LocationMismatch` where the readings are for
/// different places, and with `NoComparablePollutants` where no pollutant
/// has a relative error.
pub fn score(forecast: &Reading, actual: &Reading) -> (r: Result<AccuracyReport, ScoreError>)
    ensures
        match spec_score(forecast@, actual@) {
            Ok(report) => r matches Ok(found) && found@ == report,
            Err(e) => r matches Err(found) && found == e,
        },
{
    if !(forecast.location_key == actual.location_key) {
        return Err(ScoreError::LocationMismatch);
    }
    match score_levels(&forecast.pollutant_levels, &actual.pollutant_levels) {
        None => Err(ScoreError::NoComparablePollutants),
        Some((per_pollutant_error, overall_error)) => Ok(
            AccuracyReport {
                location_key: actual.location_key.clone(),
                per_pollutant_error,
                overall_error,
            },
        ),
    }
}

/// Scoring a reading against itself gives an overall error of zero, and an
/// error of zero for each of its pollutants, provided the reading carries a
/// pollutant and none of its levels is zero.
pub proof fn lemma_score_self(x: ReadingView)
    requires
        x.wf(),
        forall|k: PollutantKind|
            x.pollutant_levels.contains_key(k) ==> #[trigger] x.pollutant_levels[k] > 0,
    ensures
        spec_score(x, x) matches Ok(report) && report.overall_error == 0
            && report.per_pollutant_error.dom() == x.pollutant_levels.dom() && forall|
            k: PollutantKind,
        |
            x.pollutant_levels.contains_key(k) ==> #[trigger] report.per_pollutant_error[k] == 0,
{
    let levels = x.pollutant_levels;
    let errors = spec_errors(levels, levels);
    assert forall|k: PollutantKind| levels.contains_key(k) implies errors.contains_key(k)
        && #[trigger] errors[k] == 0 by {
        assert(levels[k] > 0);
        lemma_relative_error_bound(levels[k], levels[k]);
    }
    assert(errors.dom() =~= levels.dom());
    lemma_view_len(errors);
    lemma_view_len(levels);
    assert(errors != Map::<PollutantKind, u64>::empty()) by {
        if errors == Map::<PollutantKind, u64>::empty() {
            assert(levels =~= Map::<PollutantKind, u32>::empty());
        }
    }
    assert(spec_error_sum(errors) == 0);
    assert(spec_mean_error(errors) == 0) by {
        let n = errors.dom().len() as int;
        assert(0int / n == 0) by (nonlinear_arith)
            requires
                n > 0,
        ;
    }
}

/// A pollutant whose actual level is zero is left out of the score, and
/// nothing else changes: the outcome is the one for an actual reading that
/// does not carry the pollutant.
pub proof fn lemma_zero_actual_excluded(forecast: ReadingView, actual: ReadingView, kind: PollutantKind)
    requires
        actual.pollutant_levels.contains_key(kind),
        actual.pollutant_levels[kind] == 0,
    ensures
        spec_score(forecast, actual) == spec_score(
            forecast,
            ReadingView { pollutant_levels: actual.pollutant_levels.remove(kind), ..actual },
        ),
        spec_score(forecast, actual) matches Ok(report)
            ==> !report.per_pollutant_error.contains_key(kind),
{
    let without = actual.pollutant_levels.remove(kind);
    assert(spec_errors(forecast.pollutant_levels, actual.pollutant_levels) =~= spec_errors(
        forecast.pollutant_levels,
        without,
    ));
}

} // verus!
