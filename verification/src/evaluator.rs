//! Compares readings with what users asked to be alerted about.
//!
//! A pollutant breaches when the reading's level is strictly above the
//! user's threshold. A breach raises an alert unless the user was alerted
//! about the same pollutant less than the cooldown ago. Raising an alert and
//! recording its time are one step: the evaluator hands out exactly the
//! alerts whose time it recorded.

use crate::database::{Database, DatabaseView, PreferenceView, StoreError, UserPreference};
use crate::pollutant::{KindMap, PollutantKind, KIND_COUNT};
use crate::ratio::{millionths, spec_millionths};
use crate::reading::{Reading, ReadingView};
use vstd::prelude::*;

verus! {

/// Why an evaluation gave no alerts.
#[derive(Clone, Copy, Debug, PartialEq, Eq, Structural)]
pub enum EvalError {
    /// The store could not be used. No alert was raised and no alert time
    /// was recorded, so evaluating again later raises what is due.
    StoreFailure,
}

/// A breach that a user is to be told about.
#[derive(Clone, Debug, PartialEq, Eq)]
pub struct Alert {
    pub user_id: String,
    pub location_key: String,
    pub pollutant: PollutantKind,
    /// The level that was observed.
    pub observed_value: u32,
    /// The threshold it is above.
    pub threshold_value: u32,
    /// Observed level over threshold, in millionths; `u64::MAX` where the
    /// threshold is zero.
    pub severity: u64,
    /// When the alert was raised, in seconds.
    pub timestamp: u64,
}

/// What an [`Alert`] holds, as mathematical values.
pub struct AlertView {
    pub user_id: Seq<char>,
    pub location_key: Seq<char>,
    pub pollutant: PollutantKind,
    pub observed_value: u32,
    pub threshold_value: u32,
    pub severity: u64,
    pub timestamp: u64,
}

impl View for Alert {
    type V = AlertView;

    open spec fn view(&self) -> AlertView {
        AlertView {
            user_id: self.user_id@,
            location_key: self.location_key@,
            pollutant: self.pollutant,
            observed_value: self.observed_value,
            threshold_value: self.threshold_value,
            severity: self.severity,
            timestamp: self.timestamp,
        }
    }
}

/// The views of a sequence of alerts.
pub open spec fn alert_views(alerts: Seq<Alert>) -> Seq<AlertView> {
    alerts.map_values(|a: Alert| a@)
}

/// Observed level over threshold, in millionths and rounded down; a zero
/// threshold has no finite ratio and gives the largest severity.
pub open spec fn spec_severity(observed: u32, threshold: u32) -> u64 {
    if threshold == 0 {
        u64::MAX
    } else {
        spec_millionths(observed as int, threshold as int) as u64
    }
}

/// Whether the level of `kind` is strictly above its threshold, both being
/// there.
pub open spec fn is_breach(
    levels: Map<PollutantKind, u32>,
    thresholds: Map<PollutantKind, u32>,
    kind: PollutantKind,
) -> bool {
    &&& levels.contains_key(kind)
    &&& thresholds.contains_key(kind)
    &&& levels[kind] > thresholds[kind]
}

/// Whether, at `now`, at least `cooldown` has passed since the last alert
/// about `kind`, or there was none.
pub open spec fn cooldown_elapsed(
    last_alert_at: Map<PollutantKind, u64>,
    kind: PollutantKind,
    now: u64,
    cooldown: u64,
) -> bool {
    last_alert_at.contains_key(kind) ==> now - last_alert_at[kind] >= cooldown
}

/// Whether evaluating `reading` for `pref` at `now` raises an alert about
/// `kind`: the reading is for the user's place, the level breaches the
/// threshold, and the cooldown has elapsed.
pub open spec fn is_due(
    pref: PreferenceView,
    reading: ReadingView,
    kind: PollutantKind,
    now: u64,
    cooldown: u64,
) -> bool {
    &&& pref.location_key == reading.location_key
    &&& is_breach(reading.pollutant_levels, pref.thresholds, kind)
    &&& cooldown_elapsed(pref.last_alert_at, kind, now, cooldown)
}

/// The alert about `kind` that evaluating `reading` for `pref` at `now`
/// raises.
pub open spec fn spec_alert(
    pref: PreferenceView,
    reading: ReadingView,
    kind: PollutantKind,
    now: u64,
) -> AlertView {
    AlertView {
        user_id: pref.user_id,
        location_key: reading.location_key,
        pollutant: kind,
        observed_value: reading.pollutant_levels[kind],
        threshold_value: pref.thresholds[kind],
        severity: spec_severity(reading.pollutant_levels[kind], pref.thresholds[kind]),
        timestamp: now,
    }
}

/// The alerts about the first `n` kinds of the canonical order, in that
/// order.
pub open spec fn spec_alerts_upto(
    pref: PreferenceView,
    reading: ReadingView,
    now: u64,
    cooldown: u64,
    n: int,
) -> Seq<AlertView>
    decreases n,
{
    if n <= 0 {
        Seq::empty()
    } else {
        let earlier = spec_alerts_upto(pref, reading, now, cooldown, n - 1);
        let kind = PollutantKind::spec_at(n - 1);
        if is_due(pref, reading, kind, now, cooldown) {
            earlier.push(spec_alert(pref, reading, kind, now))
        } else {
            earlier
        }
    }
}

/// The alerts that evaluating `reading` for `pref` at `now` raises: one for
/// each pollutant that is due, in canonical order.
pub open spec fn spec_alerts(
    pref: PreferenceView,
    reading: ReadingView,
    now: u64,
    cooldown: u64,
) -> Seq<AlertView> {
    spec_alerts_upto(pref, reading, now, cooldown, KIND_COUNT as int)
}

/// The user's cooldown state after the evaluation: `now` for each pollutant
/// that was due, the earlier state for the others.
pub open spec fn spec_cooldown_after(
    pref: PreferenceView,
    reading: ReadingView,
    now: u64,
    cooldown: u64,
) -> Map<PollutantKind, u64> {
    Map::new(
        |k: PollutantKind|
            pref.last_alert_at.contains_key(k) || is_due(pref, reading, k, now, cooldown),
        |k: PollutantKind|
            if is_due(pref, reading, k, now, cooldown) {
                now
            } else {
                pref.last_alert_at[k]
            },
    )
}

/// The user's record after the evaluation.
pub open spec fn spec_pref_after(
    pref: PreferenceView,
    reading: ReadingView,
    now: u64,
    cooldown: u64,
) -> PreferenceView {
    PreferenceView { last_alert_at: spec_cooldown_after(pref, reading, now, cooldown), ..pref }
}

/// Observed level over threshold, in millionths.
pub fn severity(observed: u32, threshold: u32) -> (r: u64)
    ensures
        r == spec_severity(observed, threshold),
{
    if threshold == 0 {
        u64::MAX
    } else {
        let r = millionths(observed, threshold);
        proof {
            crate::ratio::lemma_millionths_bounds(observed as int, threshold as int);
        }
        r
    }
}

/// Evaluates one reading for one user at `now`.
///
/// Returns the alerts that are due, one per pollutant and in canonical
/// order, and the user's cooldown state with `now` recorded for each of
/// them. A pollutant is due exactly when the reading is for the user's
/// place, carries a level strictly above the user's threshold, and the user
/// was not alerted about it less than `cooldown` before `now`.
pub fn evaluate_user(pref: &UserPreference, reading: &Reading, now: u64, cooldown: u64) -> (r: (
    Vec<Alert>,
    KindMap<u64>,
))
    ensures
        alert_views(r.0@) == spec_alerts(pref@, reading@, now, cooldown),
        r.1@ == spec_cooldown_after(pref@, reading@, now, cooldown),
        forall|k: PollutantKind|
            has_alert_about(alert_views(r.0@), k) <==> is_due(pref@, reading@, k, now, cooldown),
{
    let mut alerts: Vec<Alert> = Vec::new();
    let mut state: KindMap<u64> = pref.last_alert_at;
    let here = pref.location_key == reading.location_key;
    let mut i: usize = 0;
    assert(alert_views(alerts@) =~= Seq::<AlertView>::empty());
    while i < KIND_COUNT
        invariant
            i <= KIND_COUNT,
            here == (pref@.location_key == reading@.location_key),
            alert_views(alerts@) == spec_alerts_upto(pref@, reading@, now, cooldown, i as int),
            forall|k: PollutantKind|
                k.spec_index() >= i ==> #[trigger] state@.contains_key(k)
                    == pref@.last_alert_at.contains_key(k),
            forall|k: PollutantKind|
                k.spec_index() >= i && pref@.last_alert_at.contains_key(k) ==> #[trigger] state@[k]
                    == pref@.last_alert_at[k],
            forall|k: PollutantKind|
                k.spec_index() < i ==> #[trigger] state@.contains_key(k) == spec_cooldown_after(
                    pref@,
                    reading@,
                    now,
                    cooldown,
                ).contains_key(k),
            forall|k: PollutantKind|
                k.spec_index() < i && state@.contains_key(k) ==> #[trigger] state@[k]
                    == spec_cooldown_after(pref@, reading@, now, cooldown)[k],
        decreases KIND_COUNT - i,
    {
        let kind = PollutantKind::at(i);
        let mut due = false;
        if here {
            match (reading.pollutant_levels.get(kind), pref.thresholds.get(kind)) {
                (Some(observed), Some(threshold)) => {
                    if observed > threshold {
                        let elapsed = match pref.last_alert_at.get(kind) {
                            Some(last) => now >= last && now - last >= cooldown,
                            None => true,
                        };
                        if elapsed {
                            due = true;
                            let alert = Alert {
                                user_id: pref.user_id.clone(),
                                location_key: reading.location_key.clone(),
                                pollutant: kind,
                                observed_value: observed,
                                threshold_value: threshold,
                                severity: severity(observed, threshold),
                                timestamp: now,
                            };
                            assert(alert@ == spec_alert(pref@, reading@, kind, now));
                            let ghost before = alerts@;
                            alerts.push(alert);
                            assert(alert_views(alerts@) =~= alert_views(before).push(alert@));
                            state.insert(kind, now);
                        }
                    }
                },
                _ => {},
            }
        }
        assert(due == is_due(pref@, reading@, kind, now, cooldown));
        i = i + 1;
    }
    assert(state@ =~= spec_cooldown_after(pref@, reading@, now, cooldown));
    proof {
        lemma_alerts_iff_due(pref@, reading@, now, cooldown);
    }
    (alerts, state)
}

/// The alerts that evaluating `reading` for every record of `rows` raises:
/// those of the first record, then those of the second, and so on.
pub open spec fn spec_store_alerts(
    rows: Seq<PreferenceView>,
    reading: ReadingView,
    now: u64,
    cooldown: u64,
) -> Seq<AlertView>
    decreases rows.len(),
{
    if rows.len() == 0 {
        Seq::empty()
    } else {
        spec_store_alerts(rows.drop_last(), reading, now, cooldown) + spec_alerts(
            rows.last(),
            reading,
            now,
            cooldown,
        )
    }
}

/// The records after `reading` was evaluated for each of them.
pub open spec fn spec_rows_after(
    rows: Seq<PreferenceView>,
    reading: ReadingView,
    now: u64,
    cooldown: u64,
) -> Seq<PreferenceView> {
    Seq::new(rows.len(), |i: int| spec_pref_after(rows[i], reading, now, cooldown))
}

/// Whether one of the first `n` alerts is about `kind`.
pub open spec fn alerted_within(alerts: Seq<AlertView>, n: int, kind: PollutantKind) -> bool {
    exists|a: int| 0 <= a < n && (#[trigger] alerts[a]).pollutant == kind
}

/// Evaluates one reading, at `now`, for every user of the store whose place
/// it is for.
///
/// Returns the alerts that are due, user by user in the order of the store
/// and, for one user, in the canonical order of the pollutants. The store
/// records `now` as the time of the last alert for exactly the users and
/// pollutants that the alerts are about. A reading for a place that no user
/// watches gives no alert and changes nothing.
///
/// Fails with `StoreFailure` where the store cannot be used; then no alert
/// is handed out and the store is unchanged.
pub fn evaluate(store: &mut Database, reading: &Reading, now: u64, cooldown: u64) -> (r: Result<
    Vec<Alert>,
    EvalError,
>)
    requires
        old(store).wf(),
    ensures
        final(store).wf(),
        !old(store)@.ready ==> (r matches Err(EvalError::StoreFailure) && final(store)@
            == old(store)@),
        old(store)@.ready ==> (r matches Ok(alerts) && alert_views(alerts@) == spec_store_alerts(
            old(store)@.rows,
            reading@,
            now,
            cooldown,
        ) && final(store)@ == (DatabaseView {
            rows: spec_rows_after(old(store)@.rows, reading@, now, cooldown),
            ..old(store)@
        })),
{
    if !store.is_ready() {
        return Err(EvalError::StoreFailure);
    }
    let ghost before = store@;
    let mut alerts: Vec<Alert> = Vec::new();
    let n = store.len();
    let mut i: usize = 0;
    assert(before.rows.take(0) =~= Seq::<PreferenceView>::empty());
    assert(alert_views(alerts@) =~= Seq::<AlertView>::empty());
    while i < n
        invariant
            i <= n,
            store.wf(),
            store@.ready,
            store@.path == before.path,
            before.rows.len() == n,
            store@.rows.len() == n,
            forall|r: int|
                0 <= r < i ==> #[trigger] store@.rows[r] == spec_pref_after(
                    before.rows[r],
                    reading@,
                    now,
                    cooldown,
                ),
            forall|r: int| i <= r < n ==> #[trigger] store@.rows[r] == before.rows[r],
            alert_views(alerts@) == spec_store_alerts(
                before.rows.take(i as int),
                reading@,
                now,
                cooldown,
            ),
        decreases n - i,
    {
        let ghost row = before.rows[i as int];
        let pref = store.preference_at(i);
        let (mut found, _) = evaluate_user(pref, reading, now, cooldown);
        let user_id = pref.user_id.clone();
        let ghost raised = alert_views(found@);
        let ghost mid = store@;
        let m = found.len();
        let mut j: usize = 0;
        while j < m
            invariant
                j <= m,
                m == found@.len(),
                i < n,
                raised == alert_views(found@),
                raised.len() == m,
                user_id@ == row.user_id,
                store.wf(),
                store@.ready,
                store@.path == before.path,
                store@.rows.len() == n,
                mid.rows.len() == n,
                mid.rows[i as int] == row,
                forall|r: int| 0 <= r < n && r != i ==> #[trigger] store@.rows[r] == mid.rows[r],
                store@.rows[i as int].user_id == row.user_id,
                store@.rows[i as int].location_key == row.location_key,
                store@.rows[i as int].thresholds == row.thresholds,
                forall|k: PollutantKind|
                    #![trigger store@.rows[i as int].last_alert_at.contains_key(k)]
                    store@.rows[i as int].last_alert_at.contains_key(k) <==> (
                    row.last_alert_at.contains_key(k) || alerted_within(raised, j as int, k)),
                forall|k: PollutantKind|
                    #![trigger store@.rows[i as int].last_alert_at[k]]
                    store@.rows[i as int].last_alert_at.contains_key(k)
                        ==> store@.rows[i as int].last_alert_at[k] == (if alerted_within(
                        raised,
                        j as int,
                        k,
                    ) {
                        now
                    } else {
                        row.last_alert_at[k]
                    }),
            decreases m - j,
        {
            let kind = found[j].pollutant;
            let ghost cur = store@;
            proof {
                assert(raised[j as int] == found@[j as int]@);
                assert forall|r: int| 0 <= r < i implies (#[trigger] cur.rows[r]).user_id
                    != user_id@ by {
                    assert(cur.rows[r].user_id != cur.rows[i as int].user_id);
                }
                crate::database::lemma_position_is_first(cur.rows, user_id@, i as int);
            }
            // A ready store that holds the user records the alert.
            if store.record_alert(user_id.as_str(), kind, now).is_err() {
                return Err(EvalError::StoreFailure);
            }
            proof {
                assert(store@.rows[i as int] == cur.rows[i as int].alerted(kind, now));
                assert forall|k: PollutantKind|
                    alerted_within(raised, j + 1, k) <==> (alerted_within(raised, j as int, k)
                        || k == kind) by {
                    if alerted_within(raised, j + 1, k) {
                        let a = choose|a: int|
                            0 <= a < j + 1 && (#[trigger] raised[a]).pollutant == k;
                        if a < j {
                            assert(alerted_within(raised, j as int, k));
                        }
                    }
                    if alerted_within(raised, j as int, k) {
                        let a = choose|a: int| 0 <= a < j && (#[trigger] raised[a]).pollutant == k;
                        assert(0 <= a < j + 1 && raised[a].pollutant == k);
                    }
                    if k == kind {
                        assert(raised[j as int].pollutant == k);
                    }
                }
            }
            j = j + 1;
        }
        proof {
            let after = spec_pref_after(row, reading@, now, cooldown);
            assert forall|k: PollutantKind|
                alerted_within(raised, m as int, k) == is_due(row, reading@, k, now, cooldown) by {
                assert(alerted_within(raised, m as int, k) == has_alert_about(raised, k));
            }
            assert(store@.rows[i as int].last_alert_at =~= after.last_alert_at);
            assert(store@.rows[i as int] == after);
            let next = before.rows.take(i + 1);
            assert(next.drop_last() =~= before.rows.take(i as int));
            assert(next.last() == row);
        }
        let ghost earlier = alerts@;
        alerts.append(&mut found);
        assert(alert_views(alerts@) =~= alert_views(earlier) + raised);
        i = i + 1;
    }
    assert(before.rows.take(n as int) =~= before.rows);
    assert(store@.rows =~= spec_rows_after(before.rows, reading@, now, cooldown));
    Ok(alerts)
}

/// Settles an evaluation whose alert times the caller tried to make
/// durable, with `persisted` as the outcome of that attempt.
///
/// Where the attempt succeeded, the alerts are handed out and the store
/// stays as the evaluation left it. Where it failed, no alert is handed
/// out, and the store goes back to `before`, its state before the
/// evaluation, so that evaluating again raises what is due.
pub fn release_alerts(
    store: &mut Database,
    before: Database,
    alerts: Vec<Alert>,
    persisted: Result<(), StoreError>,
) -> (r: Result<Vec<Alert>, EvalError>)
    requires
        old(store).wf(),
        before.wf(),
    ensures
        final(store).wf(),
        persisted is Ok ==> r == Ok::<Vec<Alert>, EvalError>(alerts) && *final(store)
            == *old(store),
        persisted is Err ==> r == Err::<Vec<Alert>, EvalError>(EvalError::StoreFailure)
            && *final(store) == before,
{
    match persisted {
        Ok(()) => Ok(alerts),
        Err(_) => {
            *store = before;
            Err(EvalError::StoreFailure)
        },
    }
}

/// Whether `alerts` has an alert about `kind`.
pub open spec fn has_alert_about(alerts: Seq<AlertView>, kind: PollutantKind) -> bool {
    exists|i: int| 0 <= i < alerts.len() && (#[trigger] alerts[i]).pollutant == kind
}

/// How many alerts of `alerts` are about `kind`.
pub open spec fn count_alerts_about(alerts: Seq<AlertView>, kind: PollutantKind) -> nat {
    alerts.filter(is_about(kind)).len()
}

/// The alerts about `kind`.
pub open spec fn is_about(kind: PollutantKind) -> spec_fn(AlertView) -> bool {
    |a: AlertView| a.pollutant == kind
}

/// The alerts for `user_id` about `kind`.
pub open spec fn is_for(user_id: Seq<char>, kind: PollutantKind) -> spec_fn(AlertView) -> bool {
    |a: AlertView| a.user_id == user_id && a.pollutant == kind
}

/// The alerts about the first `n` kinds are about those kinds only, one
/// about each kind that is due.
pub proof fn lemma_alerts_upto(
    pref: PreferenceView,
    reading: ReadingView,
    now: u64,
    cooldown: u64,
    n: int,
)
    requires
        0 <= n <= KIND_COUNT,
    ensures
        forall|k: PollutantKind|
            #![trigger has_alert_about(spec_alerts_upto(pref, reading, now, cooldown, n), k)]
            has_alert_about(spec_alerts_upto(pref, reading, now, cooldown, n), k) <==> (
            k.spec_index() < n && is_due(pref, reading, k, now, cooldown)),
        forall|k: PollutantKind|
            #![trigger count_alerts_about(spec_alerts_upto(pref, reading, now, cooldown, n), k)]
            count_alerts_about(spec_alerts_upto(pref, reading, now, cooldown, n), k) == (if k.spec_index()
                < n && is_due(pref, reading, k, now, cooldown) {
                1nat
            } else {
                0nat
            }),
        forall|i: int|
            0 <= i < spec_alerts_upto(pref, reading, now, cooldown, n).len() ==> {
                let a = #[trigger] spec_alerts_upto(pref, reading, now, cooldown, n)[i];
                a == spec_alert(pref, reading, a.pollutant, now)
            },
    decreases n,
{
    let alerts = spec_alerts_upto(pref, reading, now, cooldown, n);
    if n == 0 {
        assert forall|k: PollutantKind| count_alerts_about(alerts, k) == 0 by {
            reveal(Seq::filter);
        }
    } else {
        lemma_alerts_upto(pref, reading, now, cooldown, n - 1);
        let earlier = spec_alerts_upto(pref, reading, now, cooldown, n - 1);
        let kind = PollutantKind::spec_at(n - 1);
        assert(kind.spec_index() == n - 1);
        let due = is_due(pref, reading, kind, now, cooldown);
        let alert = spec_alert(pref, reading, kind, now);
        assert(alerts == if due {
            earlier.push(alert)
        } else {
            earlier
        });
        assert forall|k: PollutantKind|
            has_alert_about(alerts, k) <==> (k.spec_index() < n && is_due(
                pref,
                reading,
                k,
                now,
                cooldown,
            )) by {
            crate::pollutant::lemma_kind_index(k);
            if has_alert_about(alerts, k) {
                let i = choose|i: int|
                    0 <= i < alerts.len() && (#[trigger] alerts[i]).pollutant == k;
                if i < earlier.len() {
                    assert(earlier[i].pollutant == k);
                    assert(has_alert_about(earlier, k));
                } else {
                    assert(k == kind);
                }
            }
            if k.spec_index() < n && is_due(pref, reading, k, now, cooldown) {
                if k == kind {
                    assert(alerts[earlier.len() as int].pollutant == k);
                } else {
                    assert(k.spec_index() < n - 1);
                    assert(has_alert_about(earlier, k));
                    let i = choose|i: int|
                        0 <= i < earlier.len() && (#[trigger] earlier[i]).pollutant == k;
                    assert(alerts[i].pollutant == k);
                }
            }
        }
        assert forall|k: PollutantKind|
            count_alerts_about(alerts, k) == (if k.spec_index() < n && is_due(
                pref,
                reading,
                k,
                now,
                cooldown,
            ) {
                1nat
            } else {
                0nat
            }) by {
            crate::pollutant::lemma_kind_index(k);
            reveal(Seq::filter);
            assert(count_alerts_about(earlier, k) == earlier.filter(is_about(k)).len());
            if due {
                assert(alerts.drop_last() =~= earlier);
                assert(alerts.last() == alert);
            }
        }
    }
}

/// An evaluation raises an alert about a pollutant exactly when the
/// pollutant is due: its level is strictly above the threshold (a level
/// equal to the threshold never alerts) and the cooldown has elapsed. It
/// raises at most one alert about each pollutant, and every alert it raises
/// is the one described by [`spec_alert`].
pub proof fn lemma_alerts_iff_due(pref: PreferenceView, reading: ReadingView, now: u64, cooldown: u64)
    ensures
        forall|k: PollutantKind|
            #![trigger has_alert_about(spec_alerts(pref, reading, now, cooldown), k)]
            has_alert_about(spec_alerts(pref, reading, now, cooldown), k) <==> is_due(
                pref,
                reading,
                k,
                now,
                cooldown,
            ),
        forall|k: PollutantKind|
            #![trigger count_alerts_about(spec_alerts(pref, reading, now, cooldown), k)]
            count_alerts_about(spec_alerts(pref, reading, now, cooldown), k) == (if is_due(
                pref,
                reading,
                k,
                now,
                cooldown,
            ) {
                1nat
            } else {
                0nat
            }),
        forall|i: int|
            0 <= i < spec_alerts(pref, reading, now, cooldown).len() ==> {
                let a = #[trigger] spec_alerts(pref, reading, now, cooldown)[i];
                a == spec_alert(pref, reading, a.pollutant, now)
            },
        forall|k: PollutantKind|
            reading.pollutant_levels.contains_key(k) && pref.thresholds.contains_key(k)
                && reading.pollutant_levels[k] <= pref.thresholds[k] ==> !has_alert_about(
                spec_alerts(pref, reading, now, cooldown),
                k,
            ),
{
    lemma_alerts_upto(pref, reading, now, cooldown, KIND_COUNT as int);
    let alerts = spec_alerts(pref, reading, now, cooldown);
    assert forall|k: PollutantKind| k.spec_index() < KIND_COUNT by {
        crate::pollutant::lemma_kind_index(k);
    }
    assert forall|k: PollutantKind|
        reading.pollutant_levels.contains_key(k) && pref.thresholds.contains_key(k)
            && reading.pollutant_levels[k] <= pref.thresholds[k] implies !has_alert_about(
        alerts,
        k,
    ) by {
        assert(!is_due(pref, reading, k, now, cooldown));
    }
}

/// Two evaluations of the same reading for the same user, the second less
/// than the cooldown after the first, raise at most one alert about each
/// pollutant between them: what the first evaluation alerted about, the
/// second keeps quiet about.
pub proof fn lemma_cooldown_one_alert(
    pref: PreferenceView,
    reading: ReadingView,
    first: u64,
    second: u64,
    cooldown: u64,
)
    requires
        second - first < cooldown,
    ensures
        forall|k: PollutantKind|
            is_due(pref, reading, k, first, cooldown) ==> !is_due(
                #[trigger] spec_pref_after(pref, reading, first, cooldown),
                reading,
                k,
                second,
                cooldown,
            ),
        forall|k: PollutantKind|
            count_alerts_about(#[trigger] spec_alerts(pref, reading, first, cooldown), k)
                + count_alerts_about(
                spec_alerts(
                    spec_pref_after(pref, reading, first, cooldown),
                    reading,
                    second,
                    cooldown,
                ),
                k,
            ) <= 1,
{
    let later = spec_pref_after(pref, reading, first, cooldown);
    lemma_alerts_iff_due(pref, reading, first, cooldown);
    lemma_alerts_iff_due(later, reading, second, cooldown);
    assert forall|k: PollutantKind| is_due(pref, reading, k, first, cooldown) implies !is_due(
        later,
        reading,
        k,
        second,
        cooldown,
    ) by {
        assert(later.last_alert_at.contains_key(k));
        assert(later.last_alert_at[k] == first);
    }
}

/// How many alerts of `alerts` are for `user_id` and about `kind`.
pub open spec fn count_alerts_for(
    alerts: Seq<AlertView>,
    user_id: Seq<char>,
    kind: PollutantKind,
) -> nat {
    alerts.filter(is_for(user_id, kind)).len()
}

/// Whether `rows` has a record of `user_id` for which `kind` is due.
pub open spec fn is_due_for(
    rows: Seq<PreferenceView>,
    reading: ReadingView,
    user_id: Seq<char>,
    kind: PollutantKind,
    now: u64,
    cooldown: u64,
) -> bool {
    exists|i: int|
        0 <= i < rows.len() && (#[trigger] rows[i]).user_id == user_id && is_due(
            rows[i],
            reading,
            kind,
            now,
            cooldown,
        )
}

/// Filters that agree on every element of a sequence keep the same elements.
proof fn lemma_filter_agree<A>(s: Seq<A>, p: spec_fn(A) -> bool, q: spec_fn(A) -> bool)
    requires
        forall|i: int| 0 <= i < s.len() ==> p(#[trigger] s[i]) == q(s[i]),
    ensures
        s.filter(p) == s.filter(q),
    decreases s.len(),
{
    reveal(Seq::filter);
    if s.len() > 0 {
        assert forall|i: int| 0 <= i < s.drop_last().len() implies p(#[trigger] s.drop_last()[i])
            == q(s.drop_last()[i]) by {
            assert(s.drop_last()[i] == s[i]);
        }
        lemma_filter_agree(s.drop_last(), p, q);
        assert(p(s.last()) == q(s[s.len() - 1]));
    }
}

/// A filter that rejects every element of a sequence keeps nothing.
proof fn lemma_filter_none<A>(s: Seq<A>, p: spec_fn(A) -> bool)
    requires
        forall|i: int| 0 <= i < s.len() ==> !p(#[trigger] s[i]),
    ensures
        s.filter(p).len() == 0,
    decreases s.len(),
{
    reveal(Seq::filter);
    if s.len() > 0 {
        assert forall|i: int| 0 <= i < s.drop_last().len() implies !p(
            #[trigger] s.drop_last()[i],
        ) by {
            assert(s.drop_last()[i] == s[i]);
        }
        lemma_filter_none(s.drop_last(), p);
        assert(!p(s[s.len() - 1]));
    }
}

/// One evaluation of the store raises, for each user and pollutant, one
/// alert where the pollutant is due for the user, and none where it is not.
pub proof fn lemma_store_alerts_iff_due(
    store: DatabaseView,
    reading: ReadingView,
    now: u64,
    cooldown: u64,
    user_id: Seq<char>,
    kind: PollutantKind,
)
    requires
        store.wf(),
    ensures
        count_alerts_for(spec_store_alerts(store.rows, reading, now, cooldown), user_id, kind) == (
        if is_due_for(store.rows, reading, user_id, kind, now, cooldown) {
            1nat
        } else {
            0nat
        }),
    decreases store.rows.len(),
{
    let rows = store.rows;
    let wanted = is_for(user_id, kind);
    if rows.len() == 0 {
        reveal(Seq::filter);
    } else {
        let rest = DatabaseView { rows: rows.drop_last(), ..store };
        assert forall|i: int, j: int| 0 <= i < j < rest.rows.len() implies (
        #[trigger] rest.rows[i]).user_id != (#[trigger] rest.rows[j]).user_id by {
            assert(rest.rows[i] == rows[i]);
            assert(rest.rows[j] == rows[j]);
        }
        lemma_store_alerts_iff_due(rest, reading, now, cooldown, user_id, kind);
        let last = rows.last();
        let earlier = spec_store_alerts(rest.rows, reading, now, cooldown);
        let raised = spec_alerts(last, reading, now, cooldown);
        Seq::filter_distributes_over_add(earlier, raised, wanted);
        assert(spec_store_alerts(rows, reading, now, cooldown) == earlier + raised);
        assert(count_alerts_for(earlier + raised, user_id, kind) == earlier.filter(wanted).len()
            + raised.filter(wanted).len());
        lemma_alerts_iff_due(last, reading, now, cooldown);
        assert forall|i: int| 0 <= i < raised.len() implies (#[trigger] raised[i]).user_id
            == last.user_id by {
            assert(raised[i] == spec_alert(last, reading, raised[i].pollutant, now));
        }
        if last.user_id == user_id {
            lemma_filter_agree(raised, wanted, is_about(kind));
            assert(raised.filter(wanted).len() == count_alerts_about(raised, kind));
            assert(!is_due_for(rest.rows, reading, user_id, kind, now, cooldown)) by {
                if is_due_for(rest.rows, reading, user_id, kind, now, cooldown) {
                    let i = choose|i: int|
                        0 <= i < rest.rows.len() && (#[trigger] rest.rows[i]).user_id == user_id
                            && is_due(rest.rows[i], reading, kind, now, cooldown);
                    assert(rest.rows[i] == rows[i]);
                    assert(rows[i].user_id != rows[rows.len() - 1].user_id);
                }
            }
            if is_due(last, reading, kind, now, cooldown) {
                assert(rows[rows.len() - 1].user_id == user_id);
            }
            if is_due_for(rows, reading, user_id, kind, now, cooldown) {
                let i = choose|i: int|
                    0 <= i < rows.len() && (#[trigger] rows[i]).user_id == user_id && is_due(
                        rows[i],
                        reading,
                        kind,
                        now,
                        cooldown,
                    );
                if i < rows.len() - 1 {
                    assert(rows[i].user_id != rows[rows.len() - 1].user_id);
                }
            }
        } else {
            lemma_filter_none(raised, wanted);
            if is_due_for(rest.rows, reading, user_id, kind, now, cooldown) {
                let i = choose|i: int|
                    0 <= i < rest.rows.len() && (#[trigger] rest.rows[i]).user_id == user_id
                        && is_due(rest.rows[i], reading, kind, now, cooldown);
                assert(rows[i] == rest.rows[i]);
            }
            if is_due_for(rows, reading, user_id, kind, now, cooldown) {
                let i = choose|i: int|
                    0 <= i < rows.len() && (#[trigger] rows[i]).user_id == user_id && is_due(
                        rows[i],
                        reading,
                        kind,
                        now,
                        cooldown,
                    );
                assert(rest.rows[i] == rows[i]);
            }
        }
    }
}

/// Two evaluations of the same reading on the same store, the second less
/// than the cooldown after the first, raise at most one alert between them
/// for each user and pollutant.
pub proof fn lemma_store_cooldown_one_alert(
    store: DatabaseView,
    reading: ReadingView,
    first: u64,
    second: u64,
    cooldown: u64,
    user_id: Seq<char>,
    kind: PollutantKind,
)
    requires
        store.wf(),
        second - first < cooldown,
    ensures
        count_alerts_for(spec_store_alerts(store.rows, reading, first, cooldown), user_id, kind)
            + count_alerts_for(
            spec_store_alerts(
                spec_rows_after(store.rows, reading, first, cooldown),
                reading,
                second,
                cooldown,
            ),
            user_id,
            kind,
        ) <= 1,
{
    let rows = store.rows;
    let later = DatabaseView { rows: spec_rows_after(rows, reading, first, cooldown), ..store };
    lemma_store_alerts_iff_due(store, reading, first, cooldown, user_id, kind);
    lemma_store_alerts_iff_due(later, reading, second, cooldown, user_id, kind);
    if is_due_for(rows, reading, user_id, kind, first, cooldown) && is_due_for(
        later.rows,
        reading,
        user_id,
        kind,
        second,
        cooldown,
    ) {
        let i = choose|i: int|
            0 <= i < rows.len() && (#[trigger] rows[i]).user_id == user_id && is_due(
                rows[i],
                reading,
                kind,
                first,
                cooldown,
            );
        let j = choose|j: int|
            0 <= j < later.rows.len() && (#[trigger] later.rows[j]).user_id == user_id && is_due(
                later.rows[j],
                reading,
                kind,
                second,
                cooldown,
            );
        assert(later.rows[j].user_id == rows[j].user_id);
        if i < j {
            assert(rows[i].user_id != rows[j].user_id);
        } else if j < i {
            assert(rows[j].user_id != rows[i].user_id);
        }
        lemma_cooldown_one_alert(rows[i], reading, first, second, cooldown);
        assert(later.rows[i] == spec_pref_after(rows[i], reading, first, cooldown));
    }
}

} // verus!
