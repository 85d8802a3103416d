use amp_android::android_bridge::get_device_info;
use amp_android::android_utils::{get_android_files_dir, init_android_storage};
use amp_android::components::debug::{debug_addresses_from_rows, extract_postal_code_from_address, from_local_data};
use amp_android::components::dormant::dormant_hourly_check_at;
use amp_android::components::notifications::{
    initialize_notification_channels, notify_active, notify_one_day, notify_six_hours, Importance,
    CHANNEL_ACTIVE, CHANNEL_ONE_DAY, CHANNEL_SIX_HOURS,
};
use amp_android::components::settings::{AppSettings, NotificationSettings};
use amp_android::components::transitions::PanelState;
use amp_android::notifications::{
    cancel_notification, create_notification_channel, send_android_notification,
    send_notification_with_map_action, NotificationCounter,
};
use amp_android::structs::{LocalData, DB};
use amp_android::ui::StoredAddress;
use amp_android::webview_config::{configure_webview_dom_storage, verify_dom_storage_enabled};

fn test_address() -> StoredAddress {
    StoredAddress {
        id: 1,
        street: "Test Street".to_string(),
        street_number: "10".to_string(),
        postal_code: "12345".to_string(),
        valid: true,
        active: false,
        matched_entry: None,
    }
}

#[test]
fn test_device_info() {
    let info = get_device_info();
    assert!(!info.is_empty());
}

#[test]
fn test_non_android_stubs() {
    assert!(configure_webview_dom_storage().is_ok());
    assert!(verify_dom_storage_enabled().is_ok());
}

#[test]
fn files_dir_only_on_android() {
    assert_eq!(get_android_files_dir(), Err("get_android_files_dir only works on Android".to_string()));
    assert!(init_android_storage().is_ok());
    assert_eq!(verify_dom_storage_enabled(), Ok(true));
}

#[test]
fn test_notification_constants() {
    assert_eq!(CHANNEL_ACTIVE, "amp_active");
    assert_eq!(CHANNEL_SIX_HOURS, "amp_six_hours");
    assert_eq!(CHANNEL_ONE_DAY, "amp_one_day");
}

#[test]
fn notifications_test_initialize_channels_no_panic() {
    initialize_notification_channels();
}

#[test]
fn channels_to_create() {
    let channels = initialize_notification_channels();
    assert_eq!(channels.len(), 3);
    assert_eq!(channels[0].id, "amp_active");
    assert_eq!(channels[0].importance, Importance::High);
    assert!(channels[0].heads_up);
    assert_eq!(channels[1].id, "amp_six_hours");
    assert!(!channels[1].heads_up && channels[1].sound);
    assert_eq!(channels[2].id, "amp_one_day");
    assert_eq!(channels[2].importance, Importance::Low);
    assert!(!channels[2].sound && !channels[2].vibration);
}

#[test]
fn test_notify_functions_no_panic() {
    let address = test_address();
    let settings = AppSettings::default();
    notify_one_day(&address, &settings);
    notify_six_hours(&address, &settings);
    notify_active(&address, &settings);
}

#[test]
fn notifications_follow_settings() {
    let address = test_address();
    let settings = AppSettings::default();
    assert!(notify_one_day(&address, &settings).is_none());
    let six = notify_six_hours(&address, &settings).unwrap();
    assert_eq!(six.channel_id, "amp_six_hours");
    assert_eq!(six.notification_id, 1);
    assert_eq!(six.title, "⏰ Street cleaning in 6 hours");
    assert_eq!(
        six.body,
        "Street cleaning starting soon on Test Street. Consider moving your car from Test Street 10."
    );
    let active = notify_active(&address, &settings).unwrap();
    assert_eq!(active.body, "Street cleaning active on Test Street. Your car at Test Street 10 is in an active zone!");
    let mut all = settings;
    all.notifications = NotificationSettings { stadning_nu: false, sex_timmar: false, en_dag: true };
    let day = notify_one_day(&address, &all).unwrap();
    assert_eq!(day.channel_id, "amp_one_day");
    assert_eq!(day.title, "📅 Street cleaning tomorrow");
    assert_eq!(day.body, "Street cleaning tomorrow on Test Street. Plan to move your car from Test Street 10.");
    assert!(notify_active(&address, &all).is_none());
}

#[test]
fn notification_ids_count_up() {
    let mut counter = NotificationCounter::new();
    assert_eq!(send_android_notification(&mut counter, "Parking Alert", "Storgatan 10"), Ok(1));
    assert_eq!(send_notification_with_map_action(&mut counter, "t", "b", "Storgatan 10, 22100"), Ok(2));
    assert_eq!(send_android_notification(&mut counter, "t", "b"), Ok(3));
    assert!(cancel_notification(2).is_ok());
    create_notification_channel("amp_active", "Active", 3);
}

#[test]
fn test_extract_postal_code_from_address() {
    assert_eq!(extract_postal_code_from_address("Idunsgatan 67B 214 46"), Some("21446".to_string()));
    assert_eq!(extract_postal_code_from_address("Kornettsgatan 18C 211 50"), Some("21150".to_string()));
    assert_eq!(extract_postal_code_from_address("Storgatan 10"), None);
}

#[test]
fn postal_code_is_last_five_digits() {
    assert_eq!(extract_postal_code_from_address("Gatan 1 2145 6"), Some("21456".to_string()));
    assert_eq!(extract_postal_code_from_address("Gatan 1 214 4"), Some("12144".to_string()));
    assert_eq!(extract_postal_code_from_address("Gatan 1 21A 46"), None);
    assert_eq!(extract_postal_code_from_address("21446"), Some("21446".to_string()));
    assert_eq!(extract_postal_code_from_address("Storgatan 10 21446"), Some("21446".to_string()));
    assert_eq!(extract_postal_code_from_address(" Storgatan 10 214 46 "), Some("21446".to_string()));
    assert_eq!(extract_postal_code_from_address("2144"), None);
}

fn debug_row(adress: &str, dag: Option<u8>, tid: Option<&str>) -> LocalData {
    LocalData {
        valid: true,
        active: true,
        postnummer: None,
        adress: adress.to_string(),
        gata: None,
        gatunummer: None,
        info: None,
        tid: tid.map(|t| t.to_string()),
        dag,
        taxa: None,
        antal_platser: None,
        typ_av_parkering: None,
    }
}

#[test]
fn debug_rows_restore_hours_with_spaces() {
    let row = debug_row("Idunsgatan 67B 214 46", Some(15), Some("0800 - 1200"));
    let a = from_local_data(&row, 0, 2024, 1, &Vec::new());
    assert_eq!(a.postal_code, "21446");
    assert_eq!(a.street, "Idunsgatan 67B 214");
    assert_eq!(a.street_number, "46");
    let db = a.matched_entry.expect("restriction rebuilt");
    assert_eq!(db.start_time, 1705302000);
    assert_eq!(db.postnummer.as_deref(), Some("21446"));
    let rows = vec![debug_row("", None, None), row];
    let all = debug_addresses_from_rows(&rows, 2024, 1, &Vec::new());
    assert_eq!(all.len(), 1);
    assert_eq!(all[0].id, 1);
}

#[test]
fn test_dormant_check_empty_storage() {
    let mut tracker = PanelState::new();
    let result = dormant_hourly_check_at(&mut tracker, &Vec::new(), &AppSettings::default(), 1705302000);
    assert!(result.is_empty());
}

#[test]
fn dormant_check_notifies_active_addresses() {
    let db = DB::from_dag_tid(
        Some("22100".to_string()),
        "Storgatan 10".to_string(),
        Some("Storgatan".to_string()),
        Some("10".to_string()),
        None,
        15,
        "0800-1200",
        None,
        None,
        None,
        2024,
        1,
    )
    .unwrap();
    let addr = StoredAddress {
        id: 42,
        street: "Storgatan".to_string(),
        street_number: "10".to_string(),
        postal_code: "22100".to_string(),
        valid: true,
        active: true,
        matched_entry: Some(db),
    };
    let mut inactive = addr.clone();
    inactive.id = 43;
    inactive.active = false;
    let mut tracker = PanelState::new();
    let notes = dormant_hourly_check_at(&mut tracker, &vec![addr.clone(), inactive], &AppSettings::default(), 1705302000);
    assert_eq!(notes.len(), 1);
    assert_eq!(notes[0].channel_id, "amp_active");
    assert_eq!(notes[0].notification_id, 42);
    assert_eq!(notes[0].title, "Städning NU!");
    assert_eq!(notes[0].body, "Städning pågående på Storgatan. Din bil på Storgatan 10 kan få böter!");
    assert_eq!(tracker.len(), 1);
    let again = dormant_hourly_check_at(&mut tracker, &vec![addr], &AppSettings::default(), 1705302000);
    assert!(again.is_empty());
}
