use air_quality_alerts::database::{Database, StoreError, UserPreference};
use air_quality_alerts::pollutant::{KindMap, PollutantKind};

fn ready_store() -> Database {
    let mut db = Database::new("preferences.db");
    db.initialize();
    db
}

fn preference(user: &str, place: &str, pm25: u32) -> UserPreference {
    let mut thresholds: KindMap<u32> = KindMap::new();
    thresholds.insert(PollutantKind::Pm25, pm25);
    UserPreference {
        user_id: user.to_string(),
        location_key: place.to_string(),
        thresholds,
        last_alert_at: KindMap::new(),
    }
}

#[test]
fn new_store_has_no_table() {
    let db = Database::new("preferences.db");
    assert_eq!(db.path(), "preferences.db");
    assert!(!db.is_ready());
    assert_eq!(db.len(), 0);
}

#[test]
fn store_without_table_is_unavailable() {
    let mut db = Database::new("preferences.db");
    assert_eq!(db.set_preference(preference("ann", "94110", 35)), Err(StoreError::Unavailable));
    assert_eq!(
        db.set_user_preference("ann", "94110", 100, 70, 35, 50),
        Err(StoreError::Unavailable)
    );
    assert_eq!(db.get_preference("ann"), Err(StoreError::Unavailable));
    assert_eq!(db.get_user_preference("ann"), Err(StoreError::Unavailable));
    assert_eq!(db.record_alert("ann", PollutantKind::Pm25, 5), Err(StoreError::Unavailable));
    assert_eq!(db.len(), 0);
    db.initialize();
    assert_eq!(db.get_preference("ann"), Ok(None));
}

#[test]
fn initialize_keeps_records() {
    let mut db = ready_store();
    assert!(db.is_ready());
    db.set_preference(preference("ann", "94110", 35)).unwrap();
    db.initialize();
    assert!(db.is_ready());
    assert_eq!(db.len(), 1);
    assert_eq!(db.get_preference("ann"), Ok(Some(preference("ann", "94110", 35))));
}

#[test]
fn absent_user_is_not_an_error() {
    let db = ready_store();
    assert_eq!(db.get_preference("nobody"), Ok(None));
    assert_eq!(db.get_user_preference("nobody"), Ok(None));
}

#[test]
fn set_then_get_returns_the_record() {
    let mut db = ready_store();
    let mut pref = preference("ann", "94110", 35);
    pref.last_alert_at.insert(PollutantKind::O3, 1234);
    assert_eq!(db.set_preference(pref.clone()), Ok(()));
    assert_eq!(db.get_preference("ann"), Ok(Some(pref)));
}

#[test]
fn set_preference_twice_is_idempotent() {
    let mut once = ready_store();
    once.set_preference(preference("bob", "10001", 12)).unwrap();
    once.set_preference(preference("ann", "94110", 35)).unwrap();
    let mut twice = once.clone();
    twice.set_preference(preference("ann", "94110", 35)).unwrap();
    assert_eq!(twice, once);
    assert_eq!(twice.get_preference("ann"), once.get_preference("ann"));
    assert_eq!(twice.get_preference("bob"), once.get_preference("bob"));
    assert_eq!(twice.len(), 2);
}

#[test]
fn set_user_preference_twice_is_idempotent() {
    let mut once = ready_store();
    once.set_user_preference("ann", "94110", 100, 70, 35, 50).unwrap();
    let mut twice = once.clone();
    twice.set_user_preference("ann", "94110", 100, 70, 35, 50).unwrap();
    assert_eq!(twice, once);
    assert_eq!(twice.get_user_preference("ann"), once.get_user_preference("ann"));
}

#[test]
fn set_preference_replaces_the_whole_record() {
    let mut db = ready_store();
    let mut old = preference("ann", "94110", 35);
    old.thresholds.insert(PollutantKind::O3, 70);
    old.last_alert_at.insert(PollutantKind::Pm25, 99);
    db.set_preference(old).unwrap();
    db.set_preference(preference("ann", "10001", 20)).unwrap();
    let stored = db.get_preference("ann").unwrap().unwrap();
    assert_eq!(stored, preference("ann", "10001", 20));
    assert_eq!(stored.last_alert_at.get(PollutantKind::Pm25), None);
    assert_eq!(stored.thresholds.get(PollutantKind::O3), None);
    assert_eq!(db.len(), 1);
}

#[test]
fn set_user_preference_keeps_cooldown_state() {
    let mut db = ready_store();
    db.set_user_preference("ann", "94110", 100, 70, 35, 50).unwrap();
    db.record_alert("ann", PollutantKind::Pm25, 1_000).unwrap();
    db.set_user_preference("ann", "10001", 90, 60, 25, 40).unwrap();
    let stored = db.get_preference("ann").unwrap().unwrap();
    assert_eq!(stored.location_key, "10001");
    assert_eq!(stored.thresholds.get(PollutantKind::Aqi), Some(90));
    assert_eq!(stored.thresholds.get(PollutantKind::O3), Some(60));
    assert_eq!(stored.thresholds.get(PollutantKind::Pm25), Some(25));
    assert_eq!(stored.thresholds.get(PollutantKind::Pm10), Some(40));
    assert_eq!(stored.last_alert_at.get(PollutantKind::Pm25), Some(1_000));
    assert_eq!(stored.last_alert_at.len(), 1);
}

#[test]
fn set_user_preference_starts_without_alerts() {
    let mut db = ready_store();
    db.set_user_preference("ann", "94110", 100, 70, 35, 50).unwrap();
    let stored = db.get_preference("ann").unwrap().unwrap();
    assert_eq!(stored.user_id, "ann");
    assert!(stored.last_alert_at.is_empty());
}

#[test]
fn get_user_preference_lists_the_thresholds() {
    let mut db = ready_store();
    db.set_user_preference("ann", "94110", 100, 70, 35, 50).unwrap();
    assert_eq!(
        db.get_user_preference("ann"),
        Ok(Some(("94110".to_string(), Some(100), Some(70), Some(35), Some(50))))
    );
    db.set_preference(preference("bob", "10001", 12)).unwrap();
    assert_eq!(
        db.get_user_preference("bob"),
        Ok(Some(("10001".to_string(), None, None, Some(12), None)))
    );
}

#[test]
fn record_alert_changes_one_time_only() {
    let mut db = ready_store();
    let mut pref = preference("ann", "94110", 35);
    pref.last_alert_at.insert(PollutantKind::O3, 10);
    db.set_preference(pref.clone()).unwrap();
    db.set_preference(preference("bob", "94110", 35)).unwrap();
    assert_eq!(db.record_alert("ann", PollutantKind::Pm25, 500), Ok(()));
    let stored = db.get_preference("ann").unwrap().unwrap();
    assert_eq!(stored.last_alert_at.get(PollutantKind::Pm25), Some(500));
    assert_eq!(stored.last_alert_at.get(PollutantKind::O3), Some(10));
    assert_eq!(stored.thresholds, pref.thresholds);
    assert_eq!(stored.location_key, pref.location_key);
    assert_eq!(db.get_preference("bob"), Ok(Some(preference("bob", "94110", 35))));
    assert_eq!(db.record_alert("ann", PollutantKind::Pm25, 700), Ok(()));
    let stored = db.get_preference("ann").unwrap().unwrap();
    assert_eq!(stored.last_alert_at.get(PollutantKind::Pm25), Some(700));
}

#[test]
fn record_alert_for_a_missing_user_is_not_found() {
    let mut db = ready_store();
    db.set_preference(preference("ann", "94110", 35)).unwrap();
    let before = db.clone();
    assert_eq!(db.record_alert("bob", PollutantKind::Pm25, 500), Err(StoreError::NotFound));
    assert_eq!(db, before);
}

#[test]
fn records_keep_the_order_of_first_storing() {
    let mut db = ready_store();
    db.set_preference(preference("ann", "94110", 35)).unwrap();
    db.set_preference(preference("bob", "10001", 12)).unwrap();
    db.set_preference(preference("cid", "60601", 20)).unwrap();
    db.set_preference(preference("ann", "94110", 40)).unwrap();
    assert_eq!(db.len(), 3);
    assert_eq!(db.preference_at(0), &preference("ann", "94110", 40));
    assert_eq!(db.preference_at(1), &preference("bob", "10001", 12));
    assert_eq!(db.preference_at(2), &preference("cid", "60601", 20));
}

#[test]
fn duplicate_is_equal_to_the_record() {
    let mut pref = preference("ann", "94110", 35);
    pref.last_alert_at.insert(PollutantKind::Aqi, 3);
    assert_eq!(pref.duplicate(), pref);
}

#[test]
fn stores_are_valid() {
    let mut db = Database::new("preferences.db");
    assert!(db.is_valid());
    db.initialize();
    assert!(db.is_valid());
    db.set_preference(preference("ann", "94110", 35)).unwrap();
    db.set_preference(preference("bob", "10001", 12)).unwrap();
    db.set_preference(preference("ann", "94110", 40)).unwrap();
    db.record_alert("bob", PollutantKind::Pm25, 9).unwrap();
    assert!(db.is_valid());
    assert_eq!(db.len(), 2);
}
