use pinewood::config::{bootstrap_config, RaceConfig};
use pinewood::error::{FailureKind, StoreError};
use pinewood::numbering::next_car_number_after;
use pinewood::order::text_after;
use pinewood::store::{is_listed_before, CheckinStore, NewScout, Scout};

fn new_scout(name: &str, den: &str, car_number: i32, weight: f64) -> NewScout {
    NewScout {
        name: name.to_string(),
        den: den.to_string(),
        car_number,
        car_weight: weight.to_bits(),
    }
}

fn register(store: &mut CheckinStore, name: &str, car_number: i32, at: &str) -> Scout {
    match store.register(new_scout(name, "Wolf", car_number, 4.9), at.to_string()) {
        Ok(s) => s,
        Err(e) => panic!("registration failed: {}", e.describe()),
    }
}

fn initialized_store() -> CheckinStore {
    let mut store = CheckinStore::new();
    store.initialize();
    store
}

#[test]
fn next_car_number_on_empty_store_is_one() {
    let store = initialized_store();
    assert_eq!(store.next_car_number(), 1);
}

#[test]
fn next_car_number_after_one_two_five_is_six() {
    let mut store = initialized_store();
    register(&mut store, "Ann", 1, "2024-03-01 10:00:00");
    register(&mut store, "Ben", 2, "2024-03-01 10:00:01");
    register(&mut store, "Cal", 5, "2024-03-01 10:00:02");
    assert_eq!(store.next_car_number(), 6);
}

#[test]
fn next_car_number_ignores_registration_order() {
    let mut store = initialized_store();
    register(&mut store, "Cal", 5, "2024-03-01 10:00:00");
    register(&mut store, "Ann", 1, "2024-03-01 10:00:01");
    register(&mut store, "Ben", 2, "2024-03-01 10:00:02");
    assert_eq!(store.next_car_number(), 6);
}

#[test]
fn list_checked_in_on_empty_store_is_empty() {
    let store = initialized_store();
    assert!(store.list_checked_in().is_empty());
}

#[test]
fn list_checked_in_is_newest_first() {
    let mut store = initialized_store();
    let a = register(&mut store, "Ann", 7, "2024-03-01 10:00:00");
    let b = register(&mut store, "Ben", 3, "2024-03-01 10:05:00");
    let listed = store.list_checked_in();
    assert_eq!(listed.len(), 2);
    assert_eq!(listed[0].id, b.id);
    assert_eq!(listed[0].name, "Ben");
    assert_eq!(listed[1].id, a.id);
    assert_eq!(listed[1].name, "Ann");
}

#[test]
fn register_returns_the_stored_row() {
    let mut store = initialized_store();
    let s = match store.register(new_scout("Dee", "Bear", 12, 5.0), "2024-03-01 09:00:00".to_string()) {
        Ok(s) => s,
        Err(e) => panic!("{}", e.describe()),
    };
    assert_eq!(s.id, 1);
    assert_eq!(s.name, "Dee");
    assert_eq!(s.den, "Bear");
    assert_eq!(s.car_number, 12);
    assert_eq!(f64::from_bits(s.car_weight), 5.0);
    assert!(s.checked_in);
    assert_eq!(s.created_at, "2024-03-01 09:00:00");
    let fetched = match store.get(s.id) {
        Ok(f) => f,
        Err(e) => panic!("{}", e.describe()),
    };
    assert_eq!(fetched.name, "Dee");
    assert_eq!(fetched.car_number, 12);
    assert_eq!(fetched.created_at, s.created_at);
}

#[test]
fn ids_increase_with_each_registration() {
    let mut store = initialized_store();
    let a = register(&mut store, "Ann", 1, "2024-03-01 10:00:00");
    let b = register(&mut store, "Ben", 2, "2024-03-01 10:00:00");
    assert_eq!(a.id, 1);
    assert_eq!(b.id, 2);
}

#[test]
fn duplicate_car_number_is_rejected_without_a_new_row() {
    let mut store = initialized_store();
    register(&mut store, "Ann", 4, "2024-03-01 10:00:00");
    let second = store.register(new_scout("Ben", "Lion", 4, 5.0), "2024-03-01 10:01:00".to_string());
    assert!(matches!(second, Err(StoreError::UniquenessViolation)));
    assert_eq!(store.list_checked_in().len(), 1);
    assert!(matches!(store.get(2), Err(StoreError::NotFound)));
    let third = register(&mut store, "Ben", 5, "2024-03-01 10:02:00");
    assert_eq!(third.id, 2);
}

#[test]
fn registered_car_numbers_are_distinct() {
    let mut store = initialized_store();
    for n in 1..=5 {
        register(&mut store, "Scout", n, "2024-03-01 10:00:00");
    }
    assert!(store.holds_car_number(3));
    assert!(!store.holds_car_number(6));
    let listed = store.list_checked_in();
    for i in 0..listed.len() {
        for j in 0..listed.len() {
            if i != j {
                assert_ne!(listed[i].car_number, listed[j].car_number);
            }
        }
    }
}

#[test]
fn get_unassigned_id_is_not_found() {
    let mut store = initialized_store();
    assert!(matches!(store.get(1), Err(StoreError::NotFound)));
    register(&mut store, "Ann", 1, "2024-03-01 10:00:00");
    assert!(matches!(store.get(2), Err(StoreError::NotFound)));
    assert!(matches!(store.get(0), Err(StoreError::NotFound)));
    assert!(matches!(store.get(-1), Err(StoreError::NotFound)));
}

#[test]
fn initialize_writes_default_config() {
    let mut store = CheckinStore::new();
    assert!(store.race_config().is_none());
    store.initialize();
    let c = store.race_config().expect("config after initialize");
    assert_eq!(c.num_lanes, 4);
    assert_eq!(c.timer_port, None);
    assert_eq!(c.heats_per_scout, 3);
    assert_eq!(c.scoring_method, "points");
}

#[test]
fn reinitialize_keeps_existing_config() {
    let custom = RaceConfig {
        num_lanes: 6,
        timer_port: Some("COM3".to_string()),
        heats_per_scout: 5,
        scoring_method: "time".to_string(),
    };
    let kept = bootstrap_config(Some(custom));
    assert_eq!(kept.num_lanes, 6);
    assert_eq!(kept.timer_port.as_deref(), Some("COM3"));
    assert_eq!(kept.heats_per_scout, 5);
    assert_eq!(kept.scoring_method, "time");

    let mut store = initialized_store();
    register(&mut store, "Ann", 1, "2024-03-01 10:00:00");
    store.initialize();
    let c = store.race_config().expect("config");
    assert_eq!(c.num_lanes, 4);
    assert_eq!(c.scoring_method, "points");
    assert_eq!(store.next_car_number(), 2);
}

#[test]
fn bootstrap_of_empty_slot_gives_defaults() {
    let c = bootstrap_config(None);
    assert_eq!(c.num_lanes, 4);
    assert_eq!(c.timer_port, None);
    assert_eq!(c.heats_per_scout, 3);
    assert_eq!(c.scoring_method, "points");
}

#[test]
fn next_after_largest_car_number() {
    assert_eq!(next_car_number_after(None), 1);
    assert_eq!(next_car_number_after(Some(5)), 6);
    assert_eq!(next_car_number_after(Some(-3)), -2);
    assert_eq!(next_car_number_after(Some(i32::MAX)), 2147483648);
}

#[test]
fn failures_are_classified() {
    assert!(matches!(
        StoreError::classify(FailureKind::UniqueViolation, "UNIQUE constraint failed".to_string()),
        StoreError::UniquenessViolation
    ));
    assert!(matches!(
        StoreError::classify(FailureKind::RowNotFound, "no rows".to_string()),
        StoreError::NotFound
    ));
    match StoreError::classify(FailureKind::Other, "disk I/O error".to_string()) {
        StoreError::Storage(m) => assert_eq!(m, "disk I/O error"),
        other => panic!("unexpected {}", other.describe()),
    }
}

#[test]
fn error_descriptions_and_recoverability() {
    let storage = StoreError::Storage("unable to open database file".to_string());
    assert_eq!(storage.describe(), "unable to open database file");
    assert!(!storage.is_recoverable());
    assert_eq!(StoreError::UniquenessViolation.describe(), "car number is already in use");
    assert!(StoreError::UniquenessViolation.is_recoverable());
    assert_eq!(StoreError::NotFound.describe(), "no scout has that id");
    assert!(StoreError::NotFound.is_recoverable());
}

#[test]
fn list_orders_by_creation_time_not_insertion() {
    let mut store = initialized_store();
    register(&mut store, "Early", 1, "2024-03-01 10:05:00");
    register(&mut store, "Late", 2, "2024-03-01 09:00:00");
    register(&mut store, "Latest", 3, "2024-03-02 08:00:00");
    let names: Vec<String> = store.list_checked_in().into_iter().map(|s| s.name).collect();
    assert_eq!(names, vec!["Latest", "Early", "Late"]);
}

#[test]
fn list_breaks_timestamp_ties_by_id() {
    let mut store = initialized_store();
    register(&mut store, "First", 10, "2024-03-01 10:00:00");
    register(&mut store, "Second", 11, "2024-03-01 10:00:00");
    register(&mut store, "Third", 12, "2024-03-01 10:00:00");
    let ids: Vec<i64> = store.list_checked_in().into_iter().map(|s| s.id).collect();
    assert_eq!(ids, vec![3, 2, 1]);
}

#[test]
fn text_comparison_is_bytewise() {
    let a = "2024-03-01 10:00:01".to_string();
    let b = "2024-03-01 10:00:00".to_string();
    assert!(text_after(&a, &b));
    assert!(!text_after(&b, &a));
    assert!(!text_after(&a, &a));
    assert!(text_after(&"ab".to_string(), &"a".to_string()));
    assert!(!text_after(&"".to_string(), &"a".to_string()));
    assert!(text_after(&"\u{e9}".to_string(), &"z".to_string()));
}

#[test]
fn listed_before_uses_time_then_id() {
    let older = Scout {
        id: 5,
        name: "A".to_string(),
        den: "Wolf".to_string(),
        car_number: 1,
        car_weight: 0,
        checked_in: true,
        created_at: "2024-03-01 10:00:00".to_string(),
    };
    let mut newer = older.clone();
    newer.id = 2;
    newer.created_at = "2024-03-01 11:00:00".to_string();
    assert!(is_listed_before(&newer, &older));
    assert!(!is_listed_before(&older, &newer));
    let mut tied = older.clone();
    tied.id = 9;
    assert!(is_listed_before(&tied, &older));
    assert!(!is_listed_before(&older, &older));
}
