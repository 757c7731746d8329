//! The preference store: one record per user, keyed by the user's id.
//!
//! The store is a table held in memory. Like a table of a database it has to
//! be created before it is used: a store that was opened but not initialized
//! answers every operation with [`StoreError::Unavailable`] and keeps no
//! record. Keeping a durable copy under [`Database::path`] is left to the
//! caller.

use crate::pollutant::{KindMap, PollutantKind};
use vstd::prelude::*;
use vstd::string::*;

verus! {

/// Why the store could not do what was asked.
#[derive(Clone, Copy, Debug, PartialEq, Eq, Structural)]
pub enum StoreError {
    /// There is no record for the user.
    NotFound,
    /// The store cannot be used; the caller may try again later.
    Unavailable,
}

/// One user's alerting configuration and cooldown state.
#[derive(Clone, Debug, PartialEq, Eq)]
pub struct UserPreference {
    /// The user; the sole key of the record.
    pub user_id: String,
    /// The place the user wants to be alerted about.
    pub location_key: String,
    /// The level above which each pollutant is a breach. A pollutant
    /// without a threshold is never evaluated for the user.
    pub thresholds: KindMap<u32>,
    /// When the user was last alerted about each pollutant, in seconds.
    pub last_alert_at: KindMap<u64>,
}

/// What a [`UserPreference`] holds, as mathematical values.
pub struct PreferenceView {
    pub user_id: Seq<char>,
    pub location_key: Seq<char>,
    pub thresholds: Map<PollutantKind, u32>,
    pub last_alert_at: Map<PollutantKind, u64>,
}

impl View for UserPreference {
    type V = PreferenceView;

    open spec fn view(&self) -> PreferenceView {
        PreferenceView {
            user_id: self.user_id@,
            location_key: self.location_key@,
            thresholds: self.thresholds@,
            last_alert_at: self.last_alert_at@,
        }
    }
}

impl PreferenceView {
    /// This record with `at` as the time of its last alert about `kind`.
    pub open spec fn alerted(self, kind: PollutantKind, at: u64) -> PreferenceView {
        PreferenceView { last_alert_at: self.last_alert_at.insert(kind, at), ..self }
    }
}

impl UserPreference {
    /// A copy of this record.
    pub fn duplicate(&self) -> (copy: UserPreference)
        ensures
            copy@ == self@,
    {
        UserPreference {
            user_id: self.user_id.clone(),
            location_key: self.location_key.clone(),
            thresholds: self.thresholds,
            last_alert_at: self.last_alert_at,
        }
    }
}

/// Whether `i` is the first row of `rows` that belongs to `user_id`.
pub open spec fn is_first_row_of(rows: Seq<PreferenceView>, user_id: Seq<char>, i: int) -> bool {
    &&& 0 <= i < rows.len()
    &&& rows[i].user_id == user_id
    &&& forall|j: int| 0 <= j < i ==> (#[trigger] rows[j]).user_id != user_id
}

/// The first row of `rows` that belongs to `user_id`, if there is one.
pub open spec fn spec_position(rows: Seq<PreferenceView>, user_id: Seq<char>) -> Option<int> {
    if exists|i: int| is_first_row_of(rows, user_id, i) {
        Some(choose|i: int| is_first_row_of(rows, user_id, i))
    } else {
        None
    }
}

/// What the store holds, as mathematical values.
pub struct DatabaseView {
    /// Where the caller keeps the durable copy.
    pub path: Seq<char>,
    /// Whether the table has been created.
    pub ready: bool,
    /// The records, in the order their users were first stored.
    pub rows: Seq<PreferenceView>,
}

impl DatabaseView {
    /// No two records belong to the same user, and a store that is not
    /// ready holds no record.
    pub open spec fn wf(self) -> bool {
        &&& forall|i: int, j: int|
            0 <= i < j < self.rows.len() ==> (#[trigger] self.rows[i]).user_id != (
            #[trigger] self.rows[j]).user_id
        &&& !self.ready ==> self.rows.len() == 0
    }

    /// The record of `user_id`, if the store has one.
    pub open spec fn get(self, user_id: Seq<char>) -> Option<PreferenceView> {
        match spec_position(self.rows, user_id) {
            Some(i) => Some(self.rows[i]),
            None => None,
        }
    }

    /// The store after `pref` replaced the record of its user, or was added
    /// as the last record where the user had none.
    pub open spec fn set(self, pref: PreferenceView) -> DatabaseView {
        match spec_position(self.rows, pref.user_id) {
            Some(i) => DatabaseView { rows: self.rows.update(i, pref), ..self },
            None => DatabaseView { rows: self.rows.push(pref), ..self },
        }
    }

    /// The cooldown state that the store has for `user_id`: empty where the
    /// user has no record.
    pub open spec fn cooldown_state(self, user_id: Seq<char>) -> Map<PollutantKind, u64> {
        match self.get(user_id) {
            Some(pref) => pref.last_alert_at,
            None => Map::empty(),
        }
    }

    /// The store after the place and thresholds of `user_id` were replaced
    /// and the user's cooldown state was kept.
    pub open spec fn edit(
        self,
        user_id: Seq<char>,
        location_key: Seq<char>,
        thresholds: Map<PollutantKind, u32>,
    ) -> DatabaseView {
        self.set(
            PreferenceView {
                user_id,
                location_key,
                thresholds,
                last_alert_at: self.cooldown_state(user_id),
            },
        )
    }

    /// The store after `at` was recorded as the time of the last alert of
    /// `user_id` about `kind`; unchanged where the user has no record.
    pub open spec fn record(self, user_id: Seq<char>, kind: PollutantKind, at: u64) -> DatabaseView {
        match spec_position(self.rows, user_id) {
            Some(i) => DatabaseView {
                rows: self.rows.update(i, self.rows[i].alerted(kind, at)),
                ..self
            },
            None => self,
        }
    }
}

/// The first row of a user is the only row with the properties of
/// [`is_first_row_of`].
pub proof fn lemma_position_is_first(rows: Seq<PreferenceView>, user_id: Seq<char>, i: int)
    requires
        is_first_row_of(rows, user_id, i),
    ensures
        spec_position(rows, user_id) == Some(i),
{
    let c = choose|c: int| is_first_row_of(rows, user_id, c);
    if c < i {
        assert(rows[c].user_id != user_id);
    } else if i < c {
        assert(rows[i].user_id != user_id);
    }
}

/// A user without any row has no first row.
pub proof fn lemma_position_absent(rows: Seq<PreferenceView>, user_id: Seq<char>)
    requires
        forall|j: int| 0 <= j < rows.len() ==> (#[trigger] rows[j]).user_id != user_id,
    ensures
        spec_position(rows, user_id) is None,
{
}

/// A user with a row has a first row.
pub proof fn lemma_first_row_exists(rows: Seq<PreferenceView>, user_id: Seq<char>, j: int)
    requires
        0 <= j < rows.len(),
        rows[j].user_id == user_id,
    ensures
        spec_position(rows, user_id) matches Some(i) && is_first_row_of(rows, user_id, i) && i <= j,
    decreases j,
{
    if forall|k: int| 0 <= k < j ==> (#[trigger] rows[k]).user_id != user_id {
        lemma_position_is_first(rows, user_id, j);
    } else {
        let k = choose|k: int| 0 <= k < j && (#[trigger] rows[k]).user_id == user_id;
        lemma_first_row_exists(rows, user_id, k);
    }
}

/// Storing a record keeps the store valid; the record can be read back, and
/// the records of the other users read as before.
pub proof fn lemma_set_then_get(store: DatabaseView, pref: PreferenceView, other: Seq<char>)
    requires
        store.wf(),
        store.ready,
    ensures
        store.set(pref).wf(),
        store.set(pref).get(pref.user_id) == Some(pref),
        other != pref.user_id ==> store.set(pref).get(other) == store.get(other),
{
    let rows = store.rows;
    let stored = store.set(pref).rows;
    let at: int = match spec_position(rows, pref.user_id) {
        Some(i) => i,
        None => rows.len() as int,
    };
    if spec_position(rows, pref.user_id) is None {
        assert forall|j: int| 0 <= j < rows.len() implies (#[trigger] rows[j]).user_id
            != pref.user_id by {
            if rows[j].user_id == pref.user_id {
                lemma_first_row_exists(rows, pref.user_id, j);
            }
        }
    }
    assert(stored.len() > at && stored[at] == pref);
    assert forall|j: int| 0 <= j < stored.len() && j != at implies #[trigger] stored[j]
        == rows[j] && rows[j].user_id != pref.user_id by {
        if spec_position(rows, pref.user_id) is Some {
            if j < at {
                assert(rows[j].user_id != rows[at].user_id);
            } else {
                assert(rows[at].user_id != rows[j].user_id);
            }
        }
    }
    assert forall|j: int| 0 <= j < at implies (#[trigger] stored[j]).user_id != pref.user_id by {
        assert(stored[j] == rows[j]);
    }
    lemma_position_is_first(stored, pref.user_id, at);
    assert forall|a: int, b: int| 0 <= a < b < stored.len() implies (#[trigger] stored[a]).user_id
        != (#[trigger] stored[b]).user_id by {
        if a != at && b != at {
            assert(stored[a] == rows[a]);
            assert(stored[b] == rows[b]);
            assert(rows[a].user_id != rows[b].user_id);
        } else if a == at {
            assert(stored[b] == rows[b]);
        } else {
            assert(stored[a] == rows[a]);
        }
    }
    if other != pref.user_id {
        match spec_position(rows, other) {
            Some(i) => {
                assert(is_first_row_of(rows, other, i));
                assert(i != at);
                assert(stored[i] == rows[i]);
                assert forall|j: int| 0 <= j < i implies (#[trigger] stored[j]).user_id
                    != other by {
                    if j != at {
                        assert(stored[j] == rows[j]);
                        assert(rows[j].user_id != other);
                    }
                }
                lemma_position_is_first(stored, other, i);
            },
            None => {
                if spec_position(stored, other) is Some {
                    let i = spec_position(stored, other)->Some_0;
                    assert(is_first_row_of(stored, other, i));
                    assert(i != at);
                    assert(stored[i] == rows[i]);
                    lemma_first_row_exists(rows, other, i);
                }
            },
        }
    }
}

/// Storing the same record twice leaves the store as storing it once did,
/// so that every user's record reads the same after the second call as
/// after the first. The same holds of editing a user's place and thresholds
/// twice with the same values.
pub proof fn lemma_set_idempotent(store: DatabaseView, pref: PreferenceView)
    requires
        store.wf(),
        store.ready,
    ensures
        store.set(pref).set(pref) == store.set(pref),
        forall|user_id: Seq<char>|
            #[trigger] store.set(pref).set(pref).get(user_id) == store.set(pref).get(user_id),
        store.edit(pref.user_id, pref.location_key, pref.thresholds).edit(
            pref.user_id,
            pref.location_key,
            pref.thresholds,
        ) == store.edit(pref.user_id, pref.location_key, pref.thresholds),
{
    lemma_set_then_get(store, pref, pref.user_id);
    let once = store.set(pref);
    let at = spec_position(once.rows, pref.user_id)->Some_0;
    assert(once.rows.update(at, pref) =~= once.rows);
    let edited = PreferenceView { last_alert_at: store.cooldown_state(pref.user_id), ..pref };
    lemma_set_then_get(store, edited, pref.user_id);
    let first = store.set(edited);
    assert(first.cooldown_state(pref.user_id) == edited.last_alert_at);
    let place = spec_position(first.rows, pref.user_id)->Some_0;
    assert(first.rows.update(place, edited) =~= first.rows);
}

/// The in-memory preference store.
#[derive(Clone, Debug, PartialEq, Eq)]
pub struct Database {
    path: String,
    ready: bool,
    rows: Vec<UserPreference>,
}

impl View for Database {
    type V = DatabaseView;

    closed spec fn view(&self) -> DatabaseView {
        DatabaseView {
            path: self.path@,
            ready: self.ready,
            rows: Seq::new(self.rows@.len(), |i: int| self.rows@[i]@),
        }
    }
}

impl Database {
    /// The store's invariant, see [`DatabaseView::wf`].
    pub open spec fn wf(&self) -> bool {
        self@.wf()
    }

    /// Opens a store whose durable copy is kept under `db_path`. The store
    /// has no table yet.
    pub fn new(db_path: &str) -> (db: Database)
        ensures
            db.wf(),
            db@ == (DatabaseView { path: db_path@, ready: false, rows: Seq::empty() }),
    {
        let db = Database { path: String::from_str(db_path), ready: false, rows: Vec::new() };
        assert(db@.rows =~= Seq::empty());
        db
    }

    /// Creates the table, unless it exists already. Records are kept.
    pub fn initialize(&mut self)
        requires
            old(self).wf(),
        ensures
            final(self).wf(),
            final(self)@ == (DatabaseView { ready: true, ..old(self)@ }),
    {
        self.ready = true;
    }

    /// Where the caller keeps the durable copy.
    pub fn path(&self) -> (path: &String)
        ensures
            path@ == self@.path,
    {
        &self.path
    }

    /// Whether the table has been created.
    pub fn is_ready(&self) -> (ready: bool)
        ensures
            ready == self@.ready,
    {
        self.ready
    }

    /// Number of records.
    pub fn len(&self) -> (n: usize)
        ensures
            n == self@.rows.len(),
    {
        self.rows.len()
    }

    /// The record at position `i`.
    pub fn preference_at(&self, i: usize) -> (pref: &UserPreference)
        requires
            i < self@.rows.len(),
        ensures
            pref@ == self@.rows[i as int],
    {
        &self.rows[i]
    }

    /// Whether the store's invariant holds. It does for every store that
    /// was made and changed by the operations of this module, so this is
    /// for callers that cannot show it otherwise.
    pub fn is_valid(&self) -> (valid: bool)
        ensures
            valid == self.wf(),
    {
        let n = self.rows.len();
        if !self.ready && n > 0 {
            return false;
        }
        let mut j: usize = 0;
        while j < n
            invariant
                j <= n,
                n == self.rows@.len(),
                forall|a: int, b: int|
                    0 <= a < b < j ==> (#[trigger] self@.rows[a]).user_id != (
                    #[trigger] self@.rows[b]).user_id,
            decreases n - j,
        {
            let mut i: usize = 0;
            while i < j
                invariant
                    i <= j < n,
                    n == self.rows@.len(),
                    forall|a: int|
                        0 <= a < i ==> (#[trigger] self@.rows[a]).user_id
                            != self@.rows[j as int].user_id,
                decreases j - i,
            {
                if self.rows[i].user_id == self.rows[j].user_id {
                    assert(self@.rows[i as int].user_id == self@.rows[j as int].user_id);
                    return false;
                }
                i = i + 1;
            }
            j = j + 1;
        }
        true
    }

    /// Position of the record of `user_id`.
    fn find(&self, user_id: &String) -> (r: Option<usize>)
        ensures
            match r {
                Some(i) => {
                    &&& i < self.rows@.len()
                    &&& is_first_row_of(self@.rows, user_id@, i as int)
                    &&& spec_position(self@.rows, user_id@) == Some(i as int)
                },
                None => {
                    &&& forall|j: int|
                        0 <= j < self@.rows.len() ==> (#[trigger] self@.rows[j]).user_id
                            != user_id@
                    &&& spec_position(self@.rows, user_id@) is None
                },
            },
    {
        let n = self.rows.len();
        let mut i: usize = 0;
        while i < n
            invariant
                n == self.rows@.len(),
                i <= n,
                forall|j: int| 0 <= j < i ==> (#[trigger] self@.rows[j]).user_id != user_id@,
            decreases n - i,
        {
            if self.rows[i].user_id == *user_id {
                proof {
                    lemma_position_is_first(self@.rows, user_id@, i as int);
                }
                return Some(i);
            }
            i = i + 1;
        }
        proof {
            lemma_position_absent(self@.rows, user_id@);
        }
        None
    }

    /// Stores `pref` as the whole record of its user, cooldown state
    /// included: it replaces the record that the user had, or becomes the
    /// last record where the user had none.
    ///
    /// Fails with `Unavailable`, and stores nothing, where the table has not
    /// been created.
    pub fn set_preference(&mut self, pref: UserPreference) -> (r: Result<(), StoreError>)
        requires
            old(self).wf(),
        ensures
            final(self).wf(),
            old(self)@.ready ==> r == Ok::<(), StoreError>(()) && final(self)@
                == old(self)@.set(pref@),
            !old(self)@.ready ==> r == Err::<(), StoreError>(StoreError::Unavailable) && final(self)@
                == old(self)@,
    {
        if !self.ready {
            return Err(StoreError::Unavailable);
        }
        match self.find(&pref.user_id) {
            Some(i) => {
                self.rows[i] = pref;
                assert(self@.rows =~= old(self)@.rows.update(i as int, pref@));
                assert forall|a: int, b: int| 0 <= a < b < self@.rows.len() implies (
                #[trigger] self@.rows[a]).user_id != (#[trigger] self@.rows[b]).user_id by {
                    assert(self@.rows[a].user_id == old(self)@.rows[a].user_id);
                    assert(self@.rows[b].user_id == old(self)@.rows[b].user_id);
                }
            },
            None => {
                self.rows.push(pref);
                assert(self@.rows =~= old(self)@.rows.push(pref@));
                assert forall|a: int, b: int| 0 <= a < b < self@.rows.len() implies (
                #[trigger] self@.rows[a]).user_id != (#[trigger] self@.rows[b]).user_id by {
                    if b < old(self)@.rows.len() {
                        assert(self@.rows[a] == old(self)@.rows[a]);
                        assert(self@.rows[b] == old(self)@.rows[b]);
                    } else {
                        assert(self@.rows[a] == old(self)@.rows[a]);
                    }
                }
            },
        }
        Ok(())
    }

    /// Replaces the place and the four thresholds of `user_id` and keeps
    /// the user's cooldown state; a user without a record gets one with no
    /// alert recorded.
    ///
    /// Fails with `Unavailable`, and stores nothing, where the table has not
    /// been created.
    pub fn set_user_preference(
        &mut self,
        user_id: &str,
        zipcode: &str,
        general_aqi_threshold: u32,
        o3_threshold: u32,
        pm25_threshold: u32,
        pm10_threshold: u32,
    ) -> (r: Result<(), StoreError>)
        requires
            old(self).wf(),
        ensures
            final(self).wf(),
            old(self)@.ready ==> r == Ok::<(), StoreError>(()) && final(self)@ == old(self)@.edit(
                user_id@,
                zipcode@,
                spec_thresholds(general_aqi_threshold, o3_threshold, pm25_threshold, pm10_threshold),
            ),
            !old(self)@.ready ==> r == Err::<(), StoreError>(StoreError::Unavailable) && final(self)@
                == old(self)@,
    {
        if !self.ready {
            return Err(StoreError::Unavailable);
        }
        let user = String::from_str(user_id);
        let thresholds = KindMap {
            pm25: Some(pm25_threshold),
            pm10: Some(pm10_threshold),
            o3: Some(o3_threshold),
            aqi: Some(general_aqi_threshold),
        };
        assert(thresholds@ =~= spec_thresholds(
            general_aqi_threshold,
            o3_threshold,
            pm25_threshold,
            pm10_threshold,
        ));
        let last_alert_at = match self.find(&user) {
            Some(i) => self.rows[i].last_alert_at,
            None => {
                let none: KindMap<u64> = KindMap::new();
                none
            },
        };
        let pref = UserPreference {
            user_id: user,
            location_key: String::from_str(zipcode),
            thresholds,
            last_alert_at,
        };
        self.set_preference(pref)
    }

    /// The record of `user_id`, or `None` where the user has none.
    ///
    /// Fails with `Unavailable` where the table has not been created.
    pub fn get_preference(&self, user_id: &str) -> (r: Result<Option<UserPreference>, StoreError>)
        requires
            self.wf(),
        ensures
            !self@.ready ==> r == Err::<Option<UserPreference>, StoreError>(
                StoreError::Unavailable,
            ),
            self@.ready ==> match self@.get(user_id@) {
                Some(stored) => r matches Ok(Some(pref)) && pref@ == stored,
                None => r matches Ok(None),
            },
    {
        if !self.ready {
            return Err(StoreError::Unavailable);
        }
        let user = String::from_str(user_id);
        match self.find(&user) {
            Some(i) => Ok(Some(self.rows[i].duplicate())),
            None => Ok(None),
        }
    }

    /// The place and the thresholds of `user_id`, in the order overall
    /// index, ozone, PM2.5, PM10, or `None` where the user has no record.
    ///
    /// Fails with `Unavailable` where the table has not been created.
    pub fn get_user_preference(&self, user_id: &str) -> (r: Result<
        Option<(String, Option<u32>, Option<u32>, Option<u32>, Option<u32>)>,
        StoreError,
    >)
        requires
            self.wf(),
        ensures
            !self@.ready ==> r matches Err(StoreError::Unavailable),
            self@.ready ==> match self@.get(user_id@) {
                Some(stored) => r matches Ok(Some(row)) && row.0@ == stored.location_key && row.1
                    == spec_threshold(stored, PollutantKind::Aqi) && row.2 == spec_threshold(
                    stored,
                    PollutantKind::O3,
                ) && row.3 == spec_threshold(stored, PollutantKind::Pm25) && row.4
                    == spec_threshold(stored, PollutantKind::Pm10),
                None => r matches Ok(None),
            },
    {
        if !self.ready {
            return Err(StoreError::Unavailable);
        }
        let user = String::from_str(user_id);
        match self.find(&user) {
            Some(i) => {
                let pref = &self.rows[i];
                Ok(
                    Some(
                        (
                            pref.location_key.clone(),
                            pref.thresholds.get(PollutantKind::Aqi),
                            pref.thresholds.get(PollutantKind::O3),
                            pref.thresholds.get(PollutantKind::Pm25),
                            pref.thresholds.get(PollutantKind::Pm10),
                        ),
                    ),
                )
            },
            None => Ok(None),
        }
    }

    /// Records `at` as the time of the last alert of `user_id` about
    /// `pollutant`. Nothing else of the record changes.
    ///
    /// Fails with `Unavailable` where the table has not been created, and
    /// with `NotFound` where the user has no record; the store is then
    /// unchanged.
    pub fn record_alert(&mut self, user_id: &str, pollutant: PollutantKind, at: u64) -> (r: Result<
        (),
        StoreError,
    >)
        requires
            old(self).wf(),
        ensures
            final(self).wf(),
            final(self)@ == old(self)@.record(user_id@, pollutant, at),
            r == (if !old(self)@.ready {
                Err::<(), StoreError>(StoreError::Unavailable)
            } else if old(self)@.get(user_id@) is None {
                Err::<(), StoreError>(StoreError::NotFound)
            } else {
                Ok::<(), StoreError>(())
            }),
    {
        if !self.ready {
            proof {
                lemma_position_absent(self@.rows, user_id@);
            }
            return Err(StoreError::Unavailable);
        }
        let user = String::from_str(user_id);
        match self.find(&user) {
            Some(i) => {
                self.rows[i].last_alert_at.insert(pollutant, at);
                assert(self@.rows =~= old(self)@.rows.update(
                    i as int,
                    old(self)@.rows[i as int].alerted(pollutant, at),
                ));
                Ok(())
            },
            None => Err(StoreError::NotFound),
        }
    }
}

/// The threshold of `kind` in a record, if it has one.
pub open spec fn spec_threshold(pref: PreferenceView, kind: PollutantKind) -> Option<u32> {
    if pref.thresholds.contains_key(kind) {
        Some(pref.thresholds[kind])
    } else {
        None
    }
}

/// The threshold map that gives every pollutant a threshold.
pub open spec fn spec_thresholds(
    general_aqi_threshold: u32,
    o3_threshold: u32,
    pm25_threshold: u32,
    pm10_threshold: u32,
) -> Map<PollutantKind, u32> {
    Map::<PollutantKind, u32>::empty().insert(PollutantKind::Aqi, general_aqi_threshold).insert(
        PollutantKind::O3,
        o3_threshold,
    ).insert(PollutantKind::Pm25, pm25_threshold).insert(PollutantKind::Pm10, pm10_threshold)
}

} // verus!
