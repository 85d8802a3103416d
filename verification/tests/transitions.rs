use amp_android::components::countdown::{bucket_for, bucket_for_at, TimeBucket};
use amp_android::components::transitions::{
    bucket_from_string, bucket_to_string, clear_panel_state, create_test_address_with_bucket,
    current_year_month, current_year_month_at, detect_transitions, detect_transitions_at,
    tracked_address_count, PanelState,
};
use amp_android::structs::{NotificationStateEntry, DB};
use amp_android::ui::StoredAddress;

fn create_test_address(id: usize, day: u8, time: &str) -> StoredAddress {
    let db = DB::from_dag_tid(
        Some("22100".to_string()),
        format!("Test Street {}", id),
        Some("Test Street".to_string()),
        Some(id.to_string()),
        None,
        day,
        time,
        None,
        None,
        None,
        2024,
        1,
    )
    .expect("Failed to create test DB entry");
    StoredAddress {
        id,
        street: "Test Street".to_string(),
        street_number: id.to_string(),
        postal_code: "22100".to_string(),
        valid: true,
        active: true,
        matched_entry: Some(db),
    }
}

fn is_actionable(bucket: &TimeBucket) -> bool {
    matches!(bucket, TimeBucket::Within1Day | TimeBucket::Within6Hours | TimeBucket::Now)
}

#[test]
fn test_initialize_panel_tracker() {
    let state = PanelState::new();
    assert_eq!(tracked_address_count(&state), 0);
}

#[test]
fn test_first_detection_in_actionable_bucket() {
    let mut state = PanelState::new();
    let (addr, bucket) = create_test_address_with_bucket(1, 1, "0800-1200").unwrap();
    if is_actionable(&bucket) {
        let transitions = detect_transitions(&mut state, &vec![addr]);
        assert!(!transitions.is_empty(), "Should detect first occurrence for actionable bucket {:?}", bucket);
    }
}

#[test]
fn test_same_bucket_no_duplicate_notification() {
    let mut state = PanelState::new();
    let (addr, _bucket) = create_test_address_with_bucket(1, 1, "0800-1200").unwrap();
    let first = detect_transitions(&mut state, &vec![addr.clone()]);
    if first.is_empty() {
        return;
    }
    let second = detect_transitions(&mut state, &vec![addr]);
    assert_eq!(second.len(), 0, "Same bucket should not trigger duplicate notification");
}

#[test]
fn transitions_test_address_without_match_ignored() {
    let mut state = PanelState::new();
    let addr = StoredAddress {
        id: 99,
        street: "No Match Street".to_string(),
        street_number: "1".to_string(),
        postal_code: "99999".to_string(),
        valid: false,
        active: false,
        matched_entry: None,
    };
    let transitions = detect_transitions(&mut state, &vec![addr]);
    assert_eq!(transitions.len(), 0, "Addresses without matches should not trigger notifications");
}

#[test]
fn test_tracked_count_increases() {
    let mut state = PanelState::new();
    let addr1 = create_test_address(1, 1, "0800-1200");
    let addr2 = create_test_address(2, 2, "0800-1200");
    detect_transitions(&mut state, &vec![addr1]);
    assert_eq!(tracked_address_count(&state), 1);
    detect_transitions(&mut state, &vec![addr2]);
    assert_eq!(tracked_address_count(&state), 2);
}

#[test]
fn test_clear_state() {
    let mut state = PanelState::new();
    let addr = create_test_address(1, 1, "0800-1200");
    detect_transitions(&mut state, &vec![addr]);
    assert!(tracked_address_count(&state) > 0);
    clear_panel_state(&mut state);
    assert_eq!(tracked_address_count(&state), 0);
}

#[test]
fn test_bucket_string_roundtrip() {
    let buckets = vec![
        TimeBucket::Now,
        TimeBucket::Within6Hours,
        TimeBucket::Within1Day,
        TimeBucket::Within1Month,
        TimeBucket::MoreThan1Month,
        TimeBucket::Invalid,
    ];
    for bucket in buckets {
        let s = bucket_to_string(&bucket);
        let restored = bucket_from_string(s);
        assert_eq!(bucket, restored, "Roundtrip failed for {:?}", bucket);
    }
}

#[test]
fn unknown_bucket_name_reads_as_invalid() {
    assert_eq!(bucket_from_string("now"), TimeBucket::Invalid);
    assert_eq!(bucket_from_string(""), TimeBucket::Invalid);
    assert_eq!(bucket_to_string(&TimeBucket::MoreThan1Month), "MoreThan1Month");
}

#[test]
fn test_state_persists_across_restart() {
    let mut state = PanelState::new();
    let addr = create_test_address(1, 1, "0800-1200");
    let first = detect_transitions(&mut state, &vec![addr.clone()]);
    let had_transition = !first.is_empty();
    let ym = current_year_month().unwrap();
    let saved = state.to_entries(ym);
    let mut restored = PanelState::from_entries(&saved, ym);
    let second = detect_transitions(&mut restored, &vec![addr]);
    if had_transition {
        assert!(second.is_empty(), "After restart, same bucket should not re-fire notification");
    }
}

#[test]
fn test_current_year_month() {
    let ym = current_year_month().unwrap();
    assert!(ym >= 202001, "year_month should be >= 202001, got {}", ym);
    assert!(ym <= 210012, "year_month should be <= 210012, got {}", ym);
}

#[test]
fn year_month_uses_swedish_date() {
    // 2023-12-31T23:30:00Z is already January in Sweden.
    assert_eq!(current_year_month_at(1704065400), Some(202401));
    assert_eq!(current_year_month_at(1704065400 - 3600), Some(202312));
}

#[test]
fn entries_of_other_months_are_ignored() {
    let entries = vec![
        NotificationStateEntry { address_id: 7, bucket: "Now".to_string(), year_month: 202401 },
        NotificationStateEntry { address_id: 8, bucket: "Within1Day".to_string(), year_month: 202312 },
        NotificationStateEntry { address_id: 7, bucket: "Within6Hours".to_string(), year_month: 202401 },
    ];
    let state = PanelState::from_entries(&entries, 202401);
    assert_eq!(state.len(), 1);
    assert_eq!(state.get(7), Some(TimeBucket::Within6Hours));
    assert_eq!(state.get(8), None);
    let saved = state.to_entries(202401);
    assert_eq!(saved.len(), 1);
    assert_eq!(saved[0].address_id, 7);
    assert_eq!(saved[0].bucket, "Within6Hours");
    assert_eq!(saved[0].year_month, 202401);
}

const START_JAN_15: i64 = 1705302000;

#[test]
fn transitions_at_fixed_instants() {
    let addr = create_test_address(3, 15, "0800-1200");
    let mut state = PanelState::new();
    let far = detect_transitions_at(&mut state, &vec![addr.clone()], START_JAN_15 - 10 * 86400);
    assert!(far.is_empty());
    assert_eq!(state.get(3), Some(TimeBucket::Within1Month));
    let day = detect_transitions_at(&mut state, &vec![addr.clone()], START_JAN_15 - 12 * 3600);
    assert_eq!(day.len(), 1);
    assert_eq!(day[0].1, Some(TimeBucket::Within1Month));
    assert_eq!(day[0].2, TimeBucket::Within1Day);
    let six = detect_transitions_at(&mut state, &vec![addr.clone()], START_JAN_15 - 3600);
    assert_eq!((six[0].1, six[0].2), (Some(TimeBucket::Within1Day), TimeBucket::Within6Hours));
    let now = detect_transitions_at(&mut state, &vec![addr.clone()], START_JAN_15);
    assert_eq!((now[0].1, now[0].2), (Some(TimeBucket::Within6Hours), TimeBucket::Now));
    let again = detect_transitions_at(&mut state, &vec![addr.clone()], START_JAN_15 + 60);
    assert!(again.is_empty());
    // removing the match forgets the address; seeing it again in force notifies anew
    let mut unmatched = addr.clone();
    unmatched.matched_entry = None;
    detect_transitions_at(&mut state, &vec![unmatched], START_JAN_15 + 60);
    assert_eq!(state.get(3), None);
    let back = detect_transitions_at(&mut state, &vec![addr], START_JAN_15 + 60);
    assert_eq!((back[0].1, back[0].2), (None, TimeBucket::Now));
}

#[test]
fn removed_address_notifies_again_at_fixed_instant() {
    let addr = create_test_address(5, 15, "0800-1200");
    let other = create_test_address(6, 16, "0800-1200");
    let mut state = PanelState::new();
    let first = detect_transitions_at(&mut state, &vec![addr.clone()], START_JAN_15 - 3600);
    assert_eq!(first.len(), 1);
    // a check of other addresses keeps the bucket of this one
    detect_transitions_at(&mut state, &vec![other], START_JAN_15 - 3600);
    assert_eq!(state.get(5), Some(TimeBucket::Within6Hours));
    assert_eq!(tracked_address_count(&state), 2);
    // a check with no address forgets every address
    let none = detect_transitions_at(&mut state, &Vec::new(), START_JAN_15 - 3600);
    assert!(none.is_empty());
    assert_eq!(tracked_address_count(&state), 0);
    let again = detect_transitions_at(&mut state, &vec![addr], START_JAN_15 - 3600);
    assert_eq!(again.len(), 1);
    assert_eq!((again[0].1, again[0].2), (None, TimeBucket::Within6Hours));
}

#[test]
fn invalid_previous_bucket_does_not_notify() {
    let addr = create_test_address(4, 15, "0800-1200");
    let mut state = PanelState::new();
    state.insert(4, TimeBucket::Invalid);
    let t = detect_transitions_at(&mut state, &vec![addr], START_JAN_15);
    assert!(t.is_empty());
    assert_eq!(state.get(4), Some(TimeBucket::Now));
}

#[test]
fn test_first_time_address_detection() {
    let mut state = PanelState::new();
    let addr = create_test_address(1, 1, "0800-1200");
    let bucket = bucket_for(addr.matched_entry.as_ref().unwrap());
    let transitions = detect_transitions(&mut state, &vec![addr]);
    if is_actionable(&bucket) {
        assert!(!transitions.is_empty());
    } else {
        assert!(transitions.is_empty());
    }
}

#[test]
fn test_no_duplicate_notifications() {
    let mut state = PanelState::new();
    let addr = create_test_address(1, 1, "0800-1200");
    let now = amp_android::calendar::utc_now_seconds();
    let bucket = bucket_for_at(addr.matched_entry.as_ref().unwrap(), now);
    let first = detect_transitions_at(&mut state, &vec![addr.clone()], now);
    if is_actionable(&bucket) {
        assert!(!first.is_empty());
    } else {
        assert!(first.is_empty());
    }
    let second = detect_transitions_at(&mut state, &vec![addr], now);
    assert_eq!(second.len(), 0, "Same bucket should not trigger duplicate notification");
}

#[test]
fn test_multiple_addresses_independent_tracking() {
    let mut state = PanelState::new();
    let now = amp_android::calendar::utc_now_seconds();
    let addr1 = create_test_address(1, 1, "0800-1200");
    let addr2 = create_test_address(2, 2, "0800-1200");
    let bucket1 = bucket_for_at(addr1.matched_entry.as_ref().unwrap(), now);
    let bucket2 = bucket_for_at(addr2.matched_entry.as_ref().unwrap(), now);
    let t1 = detect_transitions_at(&mut state, &vec![addr1.clone()], now);
    let expected1 = if is_actionable(&bucket1) { 1 } else { 0 };
    assert_eq!(t1.len(), expected1);
    let t2 = detect_transitions_at(&mut state, &vec![addr1.clone(), addr2.clone()], now);
    let expected2 = if is_actionable(&bucket2) { 1 } else { 0 };
    assert_eq!(t2.len(), expected2);
    let t3 = detect_transitions_at(&mut state, &vec![addr1, addr2], now);
    assert_eq!(t3.len(), 0, "No transitions when both addresses stay in same buckets");
}

#[test]
fn test_removed_address_cleaned_from_state() {
    let mut state = PanelState::new();
    let addr = create_test_address(1, 1, "0800-1200");
    let bucket = bucket_for(addr.matched_entry.as_ref().unwrap());
    let first = detect_transitions(&mut state, &vec![addr.clone()]);
    if is_actionable(&bucket) {
        assert!(!first.is_empty(), "Initial actionable bucket should trigger (bucket = {:?})", bucket);
    } else {
        assert!(first.is_empty(), "Non-actionable bucket {:?} should not trigger on first detection", bucket);
    }
    detect_transitions(&mut state, &Vec::new());
    let transitions = detect_transitions(&mut state, &vec![addr]);
    if is_actionable(&bucket) {
        assert!(!transitions.is_empty(), "Re-adding address in actionable bucket should trigger notification");
    } else {
        assert!(transitions.is_empty(), "Re-adding non-actionable address should not trigger notification");
    }
}

#[test]
fn test_multiple_transitions_in_one_check() {
    let mut state = PanelState::new();
    let now = amp_android::calendar::utc_now_seconds();
    let addrs = vec![
        create_test_address(1, 1, "0800-1200"),
        create_test_address(2, 1, "1400-1800"),
        create_test_address(3, 2, "0800-1200"),
    ];
    let expected = addrs
        .iter()
        .filter(|a| is_actionable(&bucket_for_at(a.matched_entry.as_ref().unwrap(), now)))
        .count();
    let transitions = detect_transitions_at(&mut state, &addrs, now);
    assert_eq!(transitions.len(), expected);
}

#[test]
fn test_state_persistence_across_checks() {
    let mut state = PanelState::new();
    let now = amp_android::calendar::utc_now_seconds();
    let addr = create_test_address(1, 1, "0800-1200");
    let bucket = bucket_for_at(addr.matched_entry.as_ref().unwrap(), now);
    let t1 = detect_transitions_at(&mut state, &vec![addr.clone()], now);
    assert_eq!(t1.len(), if is_actionable(&bucket) { 1 } else { 0 });
    assert_eq!(detect_transitions_at(&mut state, &vec![addr.clone()], now).len(), 0);
    assert_eq!(detect_transitions_at(&mut state, &vec![addr], now).len(), 0);
}

#[test]
fn test_bulk_notification_check() {
    let mut state = PanelState::new();
    let now = amp_android::calendar::utc_now_seconds();
    let addresses: Vec<StoredAddress> =
        (1..=10).map(|i| create_test_address(i, (i % 31) as u8 + 1, "0800-1200")).collect();
    detect_transitions_at(&mut state, &addresses, now);
    let second = detect_transitions_at(&mut state, &addresses, now);
    assert_eq!(second.len(), 0, "Bulk second check should not trigger duplicates");
}

#[test]
fn test_multiple_address_transitions() {
    let mut state = PanelState::new();
    let now = amp_android::calendar::utc_now_seconds();
    let addresses = vec![
        create_test_address(1, 1, "0800-1200"),
        create_test_address(2, 2, "0800-1200"),
        create_test_address(3, 3, "0800-1200"),
    ];
    detect_transitions_at(&mut state, &addresses, now);
    let second = detect_transitions_at(&mut state, &addresses, now);
    assert_eq!(second.len(), 0, "Second check should not trigger duplicate notifications");
}

#[test]
fn test_bucket_categorization() {
    let addr = create_test_address(1, 1, "0800-1200");
    let bucket = bucket_for(addr.matched_entry.as_ref().unwrap());
    assert!(matches!(
        bucket,
        TimeBucket::Within1Day | TimeBucket::Within6Hours | TimeBucket::Now | TimeBucket::Within1Month
            | TimeBucket::MoreThan1Month
    ));
}
