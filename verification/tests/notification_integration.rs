use amp_android::components::countdown::{bucket_for_at, TimeBucket};
use amp_android::components::lifecycle::LifecycleManager;
use amp_android::components::notifications::{
    initialize_notification_channels, notify_active, notify_one_day, notify_six_hours,
};
use amp_android::components::settings::AppSettings;
use amp_android::components::transitions::{
    create_test_address_with_bucket, detect_transitions, detect_transitions_at, PanelState,
};
use amp_android::structs::DB;
use amp_android::ui::StoredAddress;

fn create_test_address(id: usize, day: u8, time: &str, year: i32) -> StoredAddress {
    let db = DB::from_dag_tid(
        Some("22100".to_string()),
        format!("Test Street {}", id),
        Some("Test Street".to_string()),
        Some(id.to_string()),
        None,
        day,
        time,
        None,
        None,
        None,
        year,
        1,
    )
    .expect("Failed to create test DB entry");
    StoredAddress {
        id,
        street: "Test Street".to_string(),
        street_number: id.to_string(),
        postal_code: "22100".to_string(),
        valid: true,
        active: true,
        matched_entry: Some(db),
    }
}

fn is_actionable(bucket: &TimeBucket) -> bool {
    matches!(bucket, TimeBucket::Within1Day | TimeBucket::Within6Hours | TimeBucket::Now)
}

fn notifies(prev: &TimeBucket, new: &TimeBucket) -> bool {
    matches!(
        (prev, new),
        (TimeBucket::MoreThan1Month, TimeBucket::Within1Day)
            | (TimeBucket::MoreThan1Month, TimeBucket::Within6Hours)
            | (TimeBucket::MoreThan1Month, TimeBucket::Now)
            | (TimeBucket::Within1Month, TimeBucket::Within1Day)
            | (TimeBucket::Within1Month, TimeBucket::Within6Hours)
            | (TimeBucket::Within1Month, TimeBucket::Now)
            | (TimeBucket::Within1Day, TimeBucket::Within6Hours)
            | (TimeBucket::Within1Day, TimeBucket::Now)
            | (TimeBucket::Within6Hours, TimeBucket::Now)
    )
}

#[test]
fn test_notification_system_initialization() {
    initialize_notification_channels();
    let state = PanelState::new();
    assert_eq!(state.len(), 0);
}

#[test]
fn test_complete_notification_flow() {
    let mut state = PanelState::new();
    let now = amp_android::calendar::utc_now_seconds();
    let (addr, _) = create_test_address_with_bucket(1, 1, "0800-1200").unwrap();
    let bucket = bucket_for_at(addr.matched_entry.as_ref().unwrap(), now);
    let transitions = detect_transitions_at(&mut state, &vec![addr.clone()], now);
    let settings = AppSettings::default();
    if is_actionable(&bucket) {
        assert!(!transitions.is_empty(), "First detection in actionable bucket should trigger transition");
        let (_, prev, new) = &transitions[0];
        assert!(prev.is_none(), "Previous bucket should be None on first detection");
        match new {
            TimeBucket::Within1Day => {
                notify_one_day(&addr, &settings);
            }
            TimeBucket::Within6Hours => {
                notify_six_hours(&addr, &settings);
            }
            TimeBucket::Now => {
                notify_active(&addr, &settings);
            }
            _ => panic!("Unexpected bucket: {:?}", new),
        }
        let transitions2 = detect_transitions_at(&mut state, &vec![addr], now);
        assert_eq!(transitions2.len(), 0, "Same bucket should not trigger duplicate notification");
    } else {
        assert!(transitions.is_empty(), "Non-actionable bucket {:?} should not trigger transitions", bucket);
    }
}

#[test]
fn test_notification_settings_respect() {
    let addr = create_test_address(99, 1, "0800-1200", 2026);
    let settings = AppSettings::default();
    notify_one_day(&addr, &settings);
    notify_six_hours(&addr, &settings);
    notify_active(&addr, &settings);
}

#[test]
fn notification_integration_test_test_transition_to_more_urgent_bucket() {
    let mut state = PanelState::new();
    let addr1 = create_test_address(1, 1, "0800-1200", 2026);
    let transitions1 = detect_transitions(&mut state, &vec![addr1]);
    println!("First detection: {} transitions", transitions1.len());
}

#[test]
fn test_lifecycle_manager_notification_integration() {
    let mut manager = LifecycleManager::new();
    manager.start();
    assert!(manager.is_running());
    assert!(manager.are_notifications_initialized());
    let now = amp_android::calendar::utc_now_seconds();
    let (count, _) = manager.check_and_send_notifications_at(&Vec::new(), &AppSettings::default(), now);
    println!("Lifecycle manager sent {} notifications", count);
    manager.shutdown();
    assert!(!manager.is_running());
}

#[test]
fn notification_integration_test_test_address_without_match_ignored() {
    let mut state = PanelState::new();
    let addr = StoredAddress {
        id: 999,
        street: "No Match Street".to_string(),
        street_number: "1".to_string(),
        postal_code: "99999".to_string(),
        valid: false,
        active: false,
        matched_entry: None,
    };
    let transitions = detect_transitions(&mut state, &vec![addr]);
    assert_eq!(transitions.len(), 0, "Addresses without matches should not trigger notifications");
}

#[test]
fn notification_integration_tests_test_address_without_match_ignored() {
    let mut state = PanelState::new();
    let addr = StoredAddress {
        id: 99,
        street: "No Match Street".to_string(),
        street_number: "1".to_string(),
        postal_code: "99999".to_string(),
        valid: false,
        active: false,
        matched_entry: None,
    };
    let transitions = detect_transitions(&mut state, &vec![addr]);
    assert_eq!(transitions.len(), 0, "Addresses without matches should not trigger notifications");
}

#[test]
fn test_inactive_addresses_handled() {
    let mut state = PanelState::new();
    let mut addr = create_test_address(1, 1, "0800-1200", 2026);
    addr.active = false;
    let transitions = detect_transitions(&mut state, &vec![addr]);
    println!("Inactive address transitions: {}", transitions.len());
}

#[test]
fn test_notification_channel_constants() {
    let addr = create_test_address(1, 1, "0800-1200", 2026);
    let settings = AppSettings::default();
    notify_one_day(&addr, &settings);
    notify_six_hours(&addr, &settings);
    notify_active(&addr, &settings);
}

#[test]
fn test_same_address_different_buckets() {
    let mut state = PanelState::new();
    let addr1 = create_test_address(1, 1, "0800-1200", 2026);
    let transitions1 = detect_transitions(&mut state, &vec![addr1]);
    if !transitions1.is_empty() {
        println!("First bucket: {:?}", transitions1[0].2);
    }
    let addr2 = create_test_address(1, 2, "0800-1200", 2026);
    let transitions2 = detect_transitions(&mut state, &vec![addr2]);
    println!("Transitions after time change: {}", transitions2.len());
}

#[test]
fn test_notification_system_under_load() {
    let addr = create_test_address(1, 1, "0800-1200", 2026);
    let settings = AppSettings::default();
    for _ in 0..100 {
        notify_one_day(&addr, &settings);
        notify_six_hours(&addr, &settings);
        notify_active(&addr, &settings);
    }
}

#[test]
fn test_notification_flow_end_to_end() {
    let mut manager = LifecycleManager::new();
    manager.start();
    let now = amp_android::calendar::utc_now_seconds();
    let (notification_count, _) = manager.check_and_send_notifications_at(&Vec::new(), &AppSettings::default(), now);
    assert_eq!(notification_count, 0);
    manager.shutdown();
}

#[test]
fn notification_integration_tests_test_transition_to_more_urgent_bucket() {
    let mut state = PanelState::new();
    let now = amp_android::calendar::utc_now_seconds();
    let addr1 = create_test_address(1, 10, "0800-1200", 2024);
    let bucket1 = bucket_for_at(addr1.matched_entry.as_ref().unwrap(), now);
    let _ = detect_transitions_at(&mut state, &vec![addr1.clone()], now);
    let mut addr2 = addr1.clone();
    let db_more_urgent = DB::from_dag_tid(
        Some("22100".to_string()),
        "Test Street 1".to_string(),
        Some("Test Street".to_string()),
        Some("1".to_string()),
        None,
        1,
        "0000-0400",
        None,
        None,
        None,
        2024,
        1,
    )
    .expect("Failed to create more urgent DB entry");
    addr2.matched_entry = Some(db_more_urgent);
    let bucket2 = bucket_for_at(addr2.matched_entry.as_ref().unwrap(), now);
    let transitions2 = detect_transitions_at(&mut state, &vec![addr2], now);
    if notifies(&bucket1, &bucket2) {
        assert!(!transitions2.is_empty());
    } else {
        assert!(transitions2.is_empty());
    }
}

#[test]
fn test_address_modification_detected() {
    let mut state = PanelState::new();
    let now = amp_android::calendar::utc_now_seconds();
    let mut addr = create_test_address(1, 10, "0800-1200", 2024);
    let bucket_before = bucket_for_at(addr.matched_entry.as_ref().unwrap(), now);
    let _ = detect_transitions_at(&mut state, &vec![addr.clone()], now);
    let db_closer = DB::from_dag_tid(
        Some("22100".to_string()),
        "Test Street 1".to_string(),
        Some("Test Street".to_string()),
        Some("1".to_string()),
        None,
        1,
        "0800-1200",
        None,
        None,
        None,
        2024,
        1,
    )
    .expect("Failed to create closer DB entry");
    addr.matched_entry = Some(db_closer);
    let bucket_after = bucket_for_at(addr.matched_entry.as_ref().unwrap(), now);
    let transitions = detect_transitions_at(&mut state, &vec![addr], now);
    if notifies(&bucket_before, &bucket_after) {
        assert!(!transitions.is_empty());
    } else {
        assert!(transitions.is_empty());
    }
}
