use amp_android::components::countdown::{
    bucket_for, bucket_for_at, format_countdown, format_countdown_at, remaining_duration,
    time_until_next_occurrence, time_until_next_occurrence_at, time_until_next_start_at, TimeBucket,
};
use amp_android::countdown as end_countdown;
use amp_android::structs::{instant_of, parse_time_range, DB};

fn create_test_db(day: u8, time: &str) -> DB {
    DB::from_dag_tid(
        Some("22100".to_string()),
        "Test Street 10".to_string(),
        Some("Test Street".to_string()),
        Some("10".to_string()),
        Some("Test restriction".to_string()),
        day,
        time,
        Some("Taxa C".to_string()),
        Some(5),
        Some("Längsgående".to_string()),
        2024,
        1,
    )
    .expect("Failed to create test DB entry")
}

const START_JAN_15: i64 = 1705302000;
const END_JAN_15: i64 = 1705316400;

#[test]
fn components_countdown_test_remaining_duration() {
    let db = create_test_db(28, "2300-2359");
    let result = remaining_duration(&db);
    assert!(result.is_some() || result.is_none());
}

#[test]
fn components_countdown_test_format_countdown() {
    let db = create_test_db(15, "0800-1200");
    let result = format_countdown(&db);
    if let Some(s) = result {
        assert!(s.contains("h"));
        assert!(s.contains("m"));
    }
}

#[test]
fn components_countdown_test_bucket_for() {
    let db = create_test_db(15, "0800-1200");
    let bucket = bucket_for(&db);
    assert!(matches!(
        bucket,
        TimeBucket::Now
            | TimeBucket::Within6Hours
            | TimeBucket::Within1Day
            | TimeBucket::Within1Month
            | TimeBucket::MoreThan1Month
            | TimeBucket::Invalid
    ));
}

#[test]
fn components_countdown_test_db_struct_integration() {
    let db = create_test_db(15, "0800-1200");
    let now = amp_android::calendar::utc_now_seconds();
    let _is_active = db.is_active(now);
    let _time_until_end = db.time_until_end(now);
    let _time_until_start = db.time_until_start(now);
}

#[test]
fn test_time_until_next_occurrence() {
    let db = create_test_db(1, "0800-1200");
    let result = time_until_next_occurrence(&db);
    assert!(result.is_some());
}

#[test]
fn restriction_instants_follow_swedish_time() {
    let db = create_test_db(15, "0800-1200");
    assert_eq!(db.start_time, START_JAN_15);
    assert_eq!(db.end_time, END_JAN_15);
    assert_eq!((db.start_minute, db.end_minute), (480, 720));
    assert_eq!(instant_of(2024, 7, 10, 480), Some(1720591200));
    assert_eq!(instant_of(2024, 3, 31, 150), None);
    assert_eq!(instant_of(2023, 2, 29, 480), None);
    assert_eq!(parse_time_range("0800-1200"), Some((480, 720)));
    assert_eq!(parse_time_range("1200-0800"), None);
    assert_eq!(parse_time_range("08:00-12:00"), None);
    assert!(DB::from_dag_tid(None, String::new(), None, None, None, 30, "0800-1200", None, None, None, 2023, 2).is_none());
}

#[test]
fn buckets_at_fixed_instants() {
    let db = create_test_db(15, "0800-1200");
    assert_eq!(bucket_for_at(&db, START_JAN_15), TimeBucket::Now);
    assert_eq!(bucket_for_at(&db, START_JAN_15 - 3 * 3600), TimeBucket::Within6Hours);
    assert_eq!(bucket_for_at(&db, START_JAN_15 - 6 * 3600), TimeBucket::Within6Hours);
    assert_eq!(bucket_for_at(&db, START_JAN_15 - 6 * 3600 - 1), TimeBucket::Within1Day);
    assert_eq!(bucket_for_at(&db, START_JAN_15 - 2 * 86400), TimeBucket::Within1Month);
    assert_eq!(bucket_for_at(&db, START_JAN_15 - 31 * 86400), TimeBucket::MoreThan1Month);
    // after the restriction ended: the same day of the next month
    assert_eq!(time_until_next_start_at(&db, END_JAN_15), Some((1707980400 - END_JAN_15) as u64));
    assert_eq!(bucket_for_at(&db, END_JAN_15), TimeBucket::MoreThan1Month);
    assert_eq!(time_until_next_occurrence_at(&db, START_JAN_15 + 60), Some((END_JAN_15 - START_JAN_15 - 60) as u64));
}

#[test]
fn countdown_texts_at_fixed_instants() {
    let db = create_test_db(15, "0800-1200");
    assert_eq!(format_countdown_at(&db, START_JAN_15 - 3 * 3600 - 61), Some("3h 01m".to_string()));
    assert_eq!(format_countdown_at(&db, START_JAN_15 + 3600), Some("3h 00m 00s".to_string()));
    assert_eq!(format_countdown_at(&db, START_JAN_15 - 2 * 86400 - 3660), Some("2d 01h 01m".to_string()));
    // within a day but more than six hours ahead: days, hours and minutes
    assert_eq!(format_countdown_at(&db, START_JAN_15 - 7 * 3600 - 61), Some("0d 07h 01m".to_string()));
}

#[test]
fn countdown_test_remaining_duration() {
    let db = create_test_db(28, "2300-2359");
    let result = end_countdown::remaining_duration(&db);
    assert!(result.is_some() || result.is_none());
}

#[test]
fn countdown_test_format_countdown() {
    let db = create_test_db(15, "0800-1200");
    let result = end_countdown::format_countdown(&db);
    if let Some(s) = result {
        assert!(s.contains("d"));
        assert!(s.contains("h"));
        assert!(s.contains("m"));
    }
}

#[test]
fn test_format_countdown_compact() {
    let db = create_test_db(15, "0800-1200");
    let result = end_countdown::format_countdown_compact(&db);
    if let Some(s) = result {
        assert!(s.contains("h"));
        assert!(s.contains("m"));
    }
}

#[test]
fn countdown_test_bucket_for() {
    let db = create_test_db(15, "0800-1200");
    let bucket = end_countdown::bucket_for(&db);
    assert!(matches!(
        bucket,
        end_countdown::TimeBucket::Now
            | end_countdown::TimeBucket::Within6Hours
            | end_countdown::TimeBucket::Within1Day
            | end_countdown::TimeBucket::Within1Month
            | end_countdown::TimeBucket::Invalid
    ));
}

#[test]
fn test_time_bucket_label() {
    assert_eq!(end_countdown::TimeBucket::Now.label(), "Urgent (< 4h)");
    assert_eq!(end_countdown::TimeBucket::Within6Hours.label(), "Soon (< 6h)");
    assert_eq!(end_countdown::TimeBucket::Within1Day.label(), "Today (< 24h)");
    assert_eq!(end_countdown::TimeBucket::Within1Month.label(), "This Month");
    assert_eq!(end_countdown::TimeBucket::Invalid.label(), "Invalid/Expired");
}

#[test]
fn test_time_bucket_icon() {
    assert_eq!(end_countdown::TimeBucket::Now.icon(), "🔴");
    assert_eq!(end_countdown::TimeBucket::Within6Hours.icon(), "🟡");
    assert_eq!(end_countdown::TimeBucket::Within1Day.icon(), "🟢");
    assert_eq!(end_countdown::TimeBucket::Within1Month.icon(), "⚪");
    assert_eq!(end_countdown::TimeBucket::Invalid.icon(), "⚫");
}

#[test]
fn test_is_currently_active() {
    let db = create_test_db(15, "0800-1200");
    let result = end_countdown::is_currently_active(&db);
    assert!(result || !result);
}

#[test]
fn test_time_until_start() {
    let db = create_test_db(28, "2300-2359");
    let result = end_countdown::time_until_start(&db);
    assert!(result.is_some() || result.is_none());
}

#[test]
fn test_group_by_bucket() {
    let restrictions = vec![
        create_test_db(15, "0800-1200"),
        create_test_db(20, "1400-1800"),
        create_test_db(25, "0900-1700"),
    ];
    let grouped = end_countdown::group_by_bucket(&restrictions);
    assert!(!grouped.is_empty());
    let total: usize = grouped.iter().map(|(_, v)| v.len()).sum();
    assert_eq!(total, 3);
}

#[test]
fn countdown_test_db_struct_integration() {
    let db = create_test_db(15, "0800-1200");
    let now = amp_android::calendar::utc_now_seconds();
    let _is_active = db.is_active(now);
    let _time_until_end = db.time_until_end(now);
    let _time_until_start = db.time_until_start(now);
}

#[test]
fn end_buckets_at_fixed_instants() {
    let db = create_test_db(15, "0800-1200");
    assert_eq!(end_countdown::bucket_for_at(&db, START_JAN_15), end_countdown::TimeBucket::Now);
    assert_eq!(end_countdown::bucket_for_at(&db, END_JAN_15), end_countdown::TimeBucket::Invalid);
    assert_eq!(
        end_countdown::format_countdown_compact_at(&db, END_JAN_15 - 3600 - 60),
        Some("1h 1m".to_string())
    );
    let grouped = end_countdown::group_by_bucket_at(&vec![db.clone()], START_JAN_15);
    assert_eq!(grouped.len(), 1);
    assert_eq!(grouped[0].0, end_countdown::TimeBucket::Now);
}

#[test]
fn next_occurrence_skips_missing_day() {
    // 31 January 2024, 08:00-12:00 Swedish time (CET): ends at 11:00 UTC.
    let db = create_test_db(31, "0800-1200");
    let end = instant_of(2024, 1, 31, 12 * 60).unwrap();
    assert_eq!(time_until_next_occurrence_at(&db, end - 60), Some(60));
    // after it ended there is no 31 February: no next occurrence
    assert_eq!(time_until_next_occurrence_at(&db, end + 60), None);
    // 15 January: after it ended, the next one is 15 February at 08:00 CET
    let mid = create_test_db(15, "0800-1200");
    let end15 = instant_of(2024, 1, 15, 12 * 60).unwrap();
    let next = instant_of(2024, 2, 15, 8 * 60).unwrap();
    assert_eq!(time_until_next_occurrence_at(&mid, end15 + 60), Some((next - end15 - 60) as u64));
}
