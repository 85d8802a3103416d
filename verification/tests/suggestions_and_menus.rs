use amp_android::countdown::TimeBucket;
use amp_android::components::settings::{toggle_section, OpenSection, SECTION_SWITCH_DELAY_MS};
use amp_android::countdown::group_by_bucket_at;
use amp_android::storage::escape_json;
use amp_android::structs::DB;
use amp_android::text::within_three_edits;
use amp_android::ui::panels::addresses_by_postal_code;
use amp_android::ui::top_bar::autocomplete_suggestions;
use amp_android::ui::StoredAddress;

fn plain_address(id: usize, postal: &str) -> StoredAddress {
    StoredAddress {
        id,
        street: "Gatan".to_string(),
        street_number: id.to_string(),
        postal_code: postal.to_string(),
        valid: false,
        active: true,
        matched_entry: None,
    }
}

fn restriction(day: u8, time: &str) -> DB {
    DB::from_dag_tid(
        Some("22100".to_string()),
        format!("Gatan {}", day),
        Some("Gatan".to_string()),
        Some(day.to_string()),
        None,
        day,
        time,
        None,
        None,
        None,
        2024,
        1,
    )
    .unwrap()
}

#[test]
fn edit_distance_of_three_at_most() {
    assert!(within_three_edits("storgtan", "storgatan"));
    assert!(within_three_edits("storgatan", "storgatan"));
    assert!(within_three_edits("", "abc"));
    assert!(!within_three_edits("", "abcd"));
    assert!(within_three_edits("kitten", "sitting"));
    assert!(!within_three_edits("strgn", "storgatan"));
    assert!(!within_three_edits("abcdef", "ghijkl"));
}

#[test]
fn suggestions_ignore_case_and_stop_at_ten() {
    let all: Vec<String> = (0..15).map(|i| format!("Storgatan {}", i)).chain(vec!["Lilla Nygatan 3".to_string()]).collect();
    let s = autocomplete_suggestions("STORG", &all);
    assert_eq!(s.len(), 10);
    assert_eq!(s[0], "Storgatan 0");
    assert_eq!(s[9], "Storgatan 9");
    let n = autocomplete_suggestions("nygatan", &all);
    assert_eq!(n, vec!["Lilla Nygatan 3".to_string()]);
    assert!(autocomplete_suggestions("  ", &all).is_empty());
    assert!(autocomplete_suggestions("xyz", &all).is_empty());
}

#[test]
fn addresses_sorted_by_postal_code_with_empty_last() {
    let addrs = vec![plain_address(1, ""), plain_address(2, "22100"), plain_address(3, "21138"), plain_address(4, "22100")];
    let sorted = addresses_by_postal_code(&addrs);
    let ids: Vec<usize> = sorted.iter().map(|a| a.id).collect();
    assert_eq!(ids, vec![3, 2, 4, 1]);
}

#[test]
fn settings_sections_fold_and_switch() {
    assert_eq!(toggle_section(OpenSection::Closed, OpenSection::Info), (OpenSection::Info, None));
    assert_eq!(toggle_section(OpenSection::Info, OpenSection::Info), (OpenSection::Closed, None));
    assert_eq!(toggle_section(OpenSection::Info, OpenSection::Debug), (OpenSection::Closed, Some(OpenSection::Debug)));
    assert_eq!(SECTION_SWITCH_DELAY_MS, 300);
}

#[test]
fn escaped_text_has_no_raw_control_characters() {
    let e = escape_json("a\"b\\c\nd\re\tf");
    assert_eq!(e, "a\\\"b\\\\c\\nd\\re\\tf");
    assert!(!e.contains('\n') && !e.contains('\r') && !e.contains('\t'));
    assert_eq!(escape_json("Storgatan 10"), "Storgatan 10");
}

#[test]
fn grouping_keeps_every_restriction_once() {
    let start_jan_15: i64 = 1705302000;
    let items = vec![restriction(15, "0800-1200"), restriction(16, "0800-1200"), restriction(15, "1300-1400")];
    let groups = group_by_bucket_at(&items, start_jan_15 + 60);
    let total: usize = groups.iter().map(|g| g.1.len()).sum();
    assert_eq!(total, items.len());
    assert!(groups.iter().all(|g| !g.1.is_empty()));
    assert_eq!(groups[0].0, TimeBucket::Now);
    assert_eq!(groups[0].1.len(), 1);
}
