use amp_android::calendar::{civil_of, date_of_epoch_day, day_number_of, epoch_day_of_date, local_date, utc_now_seconds};
use amp_android::swedish_time::{summer_time_at, swedish_civil_of, swedish_local_of, swedish_to_utc};

#[test]
fn day_numbers_and_dates() {
    assert_eq!(epoch_day_of_date(1970, 1, 1), Some(0));
    assert_eq!(epoch_day_of_date(2024, 1, 15), Some(19737));
    assert_eq!(epoch_day_of_date(2023, 2, 29), None);
    assert_eq!(date_of_epoch_day(19737), Some((2024, 1, 15)));
    assert_eq!(date_of_epoch_day(-1), Some((1969, 12, 31)));
    assert_eq!(day_number_of(-1), Some(-1));
    assert_eq!(day_number_of(86400), Some(1));
    let c = civil_of(1705302000).unwrap();
    assert_eq!((c.year, c.month, c.day, c.hour, c.minute, c.second), (2024, 1, 15, 7, 0, 0));
}

#[test]
fn swedish_offsets() {
    // 2024-03-31T01:00:00Z starts summer time; 2024-10-27T01:00:00Z ends it.
    assert_eq!(summer_time_at(1711846800), Some(true));
    assert_eq!(summer_time_at(1711846799), Some(false));
    assert_eq!(summer_time_at(1729990800), Some(false));
    assert_eq!(summer_time_at(1729990799), Some(true));
    assert_eq!(swedish_local_of(1705302000), Some(1705302000 + 3600));
    let c = swedish_civil_of(1720591200).unwrap();
    assert_eq!((c.month, c.day, c.hour), (7, 10, 8));
    // 02:30 on 2024-03-31 does not exist in Sweden; 02:30 on 2024-10-27 occurs twice.
    assert_eq!(swedish_to_utc(1711852200), None);
    assert_eq!(swedish_to_utc(1729996200), None);
    assert_eq!(swedish_to_utc(1705305600), Some(1705302000));
}

#[test]
fn clocks_are_in_range() {
    assert!(utc_now_seconds() > 1_600_000_000);
    let (y, m, d) = local_date();
    assert!(y >= 2020 && (1..=12).contains(&m) && (1..=31).contains(&d));
}
