use amp_android::components::lifecycle::{check_and_send_notifications_standalone, LifecycleAction, LifecycleManager};
use amp_android::components::settings::{AppSettings, Language};
use amp_android::components::transitions::PanelState;
use amp_android::components::translations::t;
use amp_android::structs::DB;
use amp_android::ui::panels::{invalid_panel_addresses, panel_addresses_at, sorting_time_at, sorting_time_by_start_at};
use amp_android::ui::top_bar::{choose_postal_code, parse_address_input};
use amp_android::ui::{
    add_address, fuzzy_match_address, is_duplicate, remove_address, toggle_active, uuid_to_usize, StoredAddress,
};
use amp_android::components::countdown::TimeBucket;

fn restriction(street: &str, number: &str, postal: &str, day: u8, time: &str) -> DB {
    DB::from_dag_tid(
        Some(postal.to_string()),
        format!("{} {}", street, number),
        Some(street.to_string()),
        Some(number.to_string()),
        None,
        day,
        time,
        None,
        None,
        None,
        2024,
        1,
    )
    .unwrap()
}

fn address(id: usize, street: &str, number: &str, postal: &str, db: Option<DB>) -> StoredAddress {
    StoredAddress {
        id,
        street: street.to_string(),
        street_number: number.to_string(),
        postal_code: postal.to_string(),
        valid: db.is_some(),
        active: true,
        matched_entry: db,
    }
}

#[test]
fn test_lifecycle_manager_creation() {
    let manager = LifecycleManager::new();
    assert!(!manager.is_running());
    assert!(!manager.are_notifications_initialized());
}

#[test]
fn test_lifecycle_manager_start_stop() {
    let mut manager = LifecycleManager::new();
    manager.start();
    assert!(manager.is_running());
    assert!(manager.are_notifications_initialized());
    manager.shutdown();
    assert!(!manager.is_running());
}

#[test]
fn test_check_notifications_no_panic() {
    let mut manager = LifecycleManager::new();
    manager.start();
    let (count, _) = manager.check_and_send_notifications_at(&Vec::new(), &AppSettings::default(), 1705302000);
    assert_eq!(count, 0);
}

#[test]
fn test_lifecycle_manager_multiple_starts() {
    let mut manager = LifecycleManager::new();
    let first = manager.start();
    assert!(manager.is_running());
    let second = manager.start();
    assert!(manager.is_running());
    assert_eq!(
        first,
        vec![LifecycleAction::InitializeNotifications, LifecycleAction::RunDailyTasks, LifecycleAction::CheckNotifications]
    );
    assert!(second.is_empty());
    assert_eq!(manager.shutdown(), vec![LifecycleAction::SaveAddresses]);
    assert!(manager.shutdown().is_empty());
}

#[test]
fn test_lifecycle_manager_integration() {
    let mut manager = LifecycleManager::new();
    assert!(!manager.is_running(), "New manager should not be running");
    assert!(!manager.are_notifications_initialized(), "Notifications should not be initialized yet");
    manager.start();
    assert!(manager.is_running(), "Started manager should be running");
    assert!(manager.are_notifications_initialized(), "Notifications should be initialized after start");
    let now = amp_android::calendar::utc_now_seconds();
    let (count, _) = manager.check_and_send_notifications_at(&Vec::new(), &AppSettings::default(), now);
    assert_eq!(count, 0, "Test environment should have no addresses to notify about");
    manager.shutdown();
    assert!(!manager.is_running(), "Shutdown manager should not be running");
}

#[test]
fn daily_tasks_once_per_day() {
    let mut manager = LifecycleManager::new();
    assert!(manager.check_and_run_daily_tasks_on((2024, 1, 15)));
    assert!(!manager.check_and_run_daily_tasks_on((2024, 1, 15)));
    assert!(manager.check_and_run_daily_tasks_on((2024, 1, 16)));
    let actions = manager.start_on((2024, 1, 16));
    assert_eq!(actions.len(), 3);
    assert!(!manager.check_and_run_daily_tasks_on((2024, 1, 16)));
}

#[test]
fn lifecycle_counts_and_notifies_per_settings() {
    let addr = address(7, "Storgatan", "10", "22100", Some(restriction("Storgatan", "10", "22100", 15, "0800-1200")));
    let mut tracker = PanelState::new();
    let (count, notes) =
        check_and_send_notifications_standalone(&mut tracker, &vec![addr.clone()], &AppSettings::default(), 1705302000 - 12 * 3600);
    // the one-day notice is switched off by default: nothing is sent
    assert_eq!(count, 0);
    assert!(notes.is_empty());
    let (count, notes) =
        check_and_send_notifications_standalone(&mut tracker, &vec![addr], &AppSettings::default(), 1705302000 - 3600);
    assert_eq!(count, 1);
    assert_eq!(notes.len(), 1);
    assert_eq!(notes[0].channel_id, "amp_six_hours");
    assert_eq!(notes[0].notification_id, 7);
}

#[test]
fn uuid_ids_read_little_endian() {
    let mut bytes = [0u8; 16];
    bytes[0] = 1;
    bytes[1] = 2;
    assert_eq!(uuid_to_usize(&bytes), 0x0201);
    let all = [0xffu8; 16];
    assert_eq!(uuid_to_usize(&all) as u64, u64::MAX);
}

#[test]
fn fuzzy_matching_tolerates_case_and_partial_names() {
    let data = vec![
        restriction("Storgatan", "10", "22100", 15, "0800-1200"),
        restriction("Lilla Nygatan", "3", "21138", 16, "0800-1200"),
    ];
    assert_eq!(fuzzy_match_address(&data, "Storgatan", "10", "22100").unwrap().dag, 15);
    assert_eq!(fuzzy_match_address(&data, "STORGATAN", "10", "221 00").unwrap().dag, 15);
    assert_eq!(fuzzy_match_address(&data, "Storga", "10", "22100").unwrap().dag, 15);
    assert_eq!(fuzzy_match_address(&data, "nygatan", "3", "21138").unwrap().dag, 16);
    // up to three typing errors in the street name are tolerated
    assert_eq!(fuzzy_match_address(&data, "Storgtan", "10", "22100").unwrap().dag, 15);
    assert_eq!(fuzzy_match_address(&data, "Stirgaten", "10", "22100").unwrap().dag, 15);
    assert!(fuzzy_match_address(&data, "Strgn", "10", "22100").is_none());
    assert!(fuzzy_match_address(&data, "Storgatan", "11", "22100").is_none());
    assert!(fuzzy_match_address(&data, "Storgatan", "10", "22101").is_none());
}

#[test]
fn new_address_is_active_and_matched() {
    let data = vec![restriction("Storgatan", "10", "22100", 15, "0800-1200")];
    let a = StoredAddress::new("storgatan".to_string(), "10".to_string(), "22100".to_string(), &data);
    assert!(a.valid && a.active);
    assert_eq!(a.matched_entry.unwrap().dag, 15);
    let b = StoredAddress::new("Okänd".to_string(), "1".to_string(), "99999".to_string(), &data);
    assert!(!b.valid && b.matched_entry.is_none());
}

#[test]
fn duplicates_toggles_and_removal() {
    let mut addrs = Vec::new();
    assert!(add_address(&mut addrs, address(1, "Storgatan", "10", "22100", None), false));
    assert!(!add_address(&mut addrs, address(2, " storgatan ", "10", "221 00", None), false));
    assert!(!add_address(&mut addrs, address(3, "Parkgatan", "1", "22100", None), true));
    assert!(is_duplicate(&addrs, &address(9, "STORGATAN", "10", "22100", None)));
    assert!(add_address(&mut addrs, address(3, "Parkgatan", "1", "22100", None), false));
    assert_eq!(toggle_active(&mut addrs, 3), Some(1));
    assert!(!addrs[1].active);
    assert_eq!(toggle_active(&mut addrs, 3), Some(1));
    assert!(addrs[1].active);
    assert_eq!(toggle_active(&mut addrs, 99), None);
    assert!(remove_address(&mut addrs, 1, true).is_none());
    assert_eq!(remove_address(&mut addrs, 1, false).unwrap().street, "Storgatan");
    assert_eq!(addrs.len(), 1);
    assert!(remove_address(&mut addrs, 1, false).is_none());
}

#[test]
fn panels_sort_soonest_first() {
    let start = 1705302000;
    let a = address(1, "A", "1", "22100", Some(restriction("A", "1", "22100", 20, "0800-1200")));
    let b = address(2, "B", "1", "22100", Some(restriction("B", "1", "22100", 16, "0800-1200")));
    let c = address(3, "C", "1", "", None);
    let d = address(4, "D", "1", "22100", Some(restriction("D", "1", "22100", 18, "0800-1200")));
    let sorted = sorting_time_by_start_at(vec![a.clone(), c.clone(), b.clone(), d.clone()], start);
    let ids: Vec<usize> = sorted.iter().map(|x| x.id).collect();
    assert_eq!(ids, vec![2, 4, 1, 3]);
    let sorted = sorting_time_at(vec![c.clone(), a.clone(), b.clone()], start);
    let ids: Vec<usize> = sorted.iter().map(|x| x.id).collect();
    assert_eq!(ids, vec![2, 1, 3]);
    let month = panel_addresses_at(&vec![a, b, c, d], TimeBucket::Within1Month, start);
    let ids: Vec<usize> = month.iter().map(|x| x.id).collect();
    assert_eq!(ids, vec![4, 1]);
}

#[test]
fn invalid_panel_orders_by_postal_code() {
    let mut x = address(1, "X", "1", "22100", None);
    let y = address(2, "Y", "1", "", None);
    let z = address(3, "Z", "1", "21100", None);
    let mut w = address(4, "W", "1", "20000", None);
    w.active = false;
    x.valid = false;
    let panel = invalid_panel_addresses(&vec![y, x, w, z]);
    let ids: Vec<usize> = panel.iter().map(|a| a.id).collect();
    assert_eq!(ids, vec![3, 1, 2]);
}

#[test]
fn top_bar_address_parsing() {
    assert_eq!(parse_address_input("Storgatan 10"), Some(("Storgatan".to_string(), "10".to_string())));
    assert_eq!(
        parse_address_input("  Stora  Nygatan 12A lgh 3 "),
        Some(("Stora Nygatan".to_string(), "12A lgh 3".to_string()))
    );
    assert_eq!(parse_address_input("10 Storgatan"), None);
    assert_eq!(parse_address_input("Storgatan"), None);
    assert_eq!(parse_address_input("Stora Nygatan"), None);
    assert_eq!(parse_address_input("   "), None);
    assert_eq!(choose_postal_code(" ", Some("22100".to_string())), "22100");
    assert_eq!(choose_postal_code("", None), "");
    assert_eq!(choose_postal_code("221 00", Some("99999".to_string())), "221 00");
}

#[test]
fn translations_fall_back_to_key() {
    assert_eq!(t("topbar.add", &Language::Svenska), "Lägg till");
    assert_eq!(t("topbar.add", &Language::English), "Add");
    assert_eq!(t("topbar.add", &Language::Espanol), "Lägg till");
    assert_eq!(t("panel.more_than_1m", &Language::English), "30+ days");
    assert_eq!(t("settings.info.p1", &Language::Francais), "Välkommen till amp.");
    assert_eq!(t("no.such.key", &Language::English), "no.such.key");
}
