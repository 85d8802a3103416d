use amp_android::components::settings::{
    apply_settings_change, get_settings_path, SettingsChange,
    from_settings_data, settings_from_records, to_settings_data, AppSettings, Language,
    NotificationSettings, Theme,
};
use amp_android::components::validity::{
    check_and_update_validity_for, days_in_month, is_leap_year, is_valid_in_current_month,
    is_valid_in_month,
};
use amp_android::components::storage::{get_backup_parquet_path, get_local_parquet_path};
use amp_android::components::transitions::get_state_file_path;
use amp_android::structs::{SettingsData, DB};
use amp_android::ui::StoredAddress;

#[test]
fn test_default_settings() {
    let settings = AppSettings::default();
    assert_eq!(settings.theme, Theme::Light);
    assert_eq!(settings.language, Language::Svenska);
    assert!(settings.notifications.stadning_nu);
    assert!(settings.notifications.sex_timmar);
    assert!(!settings.notifications.en_dag);
}

#[test]
fn test_settings_conversion_roundtrip() {
    let original = AppSettings {
        notifications: NotificationSettings { stadning_nu: false, sex_timmar: true, en_dag: true },
        theme: Theme::Dark,
        language: Language::English,
    };
    let settings_data = to_settings_data(&original);
    let restored = from_settings_data(settings_data);
    assert_eq!(original, restored);
}

#[test]
fn test_theme_display() {
    assert_eq!(Theme::Light.to_string(), "Light");
    assert_eq!(Theme::Dark.to_string(), "Dark");
}

#[test]
fn test_language_serialization() {
    assert_eq!(Language::Svenska.to_string(), "Svenska");
    assert_eq!(Language::English.to_string(), "English");
    assert_eq!(Language::Espanol.to_string(), "Espanol");
    assert_eq!(Language::Francais.to_string(), "Francais");
}

#[test]
fn test_language_display_names() {
    assert_eq!(Language::Espanol.display_name(), "Español");
    assert_eq!(Language::Francais.display_name(), "Français");
}

#[test]
fn test_all_languages_roundtrip() {
    for lang in [Language::Svenska, Language::English, Language::Espanol, Language::Francais] {
        let settings = AppSettings {
            notifications: NotificationSettings::default(),
            theme: Theme::Light,
            language: lang,
        };
        let settings_data = to_settings_data(&settings);
        let restored = from_settings_data(settings_data);
        assert_eq!(settings.language, restored.language, "Language {:?} should roundtrip correctly", lang);
    }
}

#[test]
fn unknown_names_read_as_defaults() {
    assert_eq!(Theme::from_string("dark"), Theme::Light);
    assert_eq!(Theme::from_string("Dark"), Theme::Dark);
    assert_eq!(Language::from_string("Español"), Language::Svenska);
    assert_eq!(Language::from_string("Francais"), Language::Francais);
    assert_eq!(Language::Svenska.as_str(), "Svenska");
}

#[test]
fn settings_from_records_takes_first_or_default() {
    assert_eq!(settings_from_records(&Vec::new()), AppSettings::default());
    let records = vec![
        SettingsData {
            stadning_nu: false,
            sex_timmar: false,
            en_dag: true,
            theme: "Dark".to_string(),
            language: "English".to_string(),
        },
        SettingsData {
            stadning_nu: true,
            sex_timmar: true,
            en_dag: true,
            theme: "Light".to_string(),
            language: "Svenska".to_string(),
        },
    ];
    let s = settings_from_records(&records);
    assert_eq!(
        s,
        AppSettings {
            notifications: NotificationSettings { stadning_nu: false, sex_timmar: false, en_dag: true },
            theme: Theme::Dark,
            language: Language::English,
        }
    );
}

#[test]
fn test_is_leap_year() {
    assert!(is_leap_year(2024));
    assert!(is_leap_year(2020));
    assert!(is_leap_year(2000));
    assert!(!is_leap_year(2023));
    assert!(!is_leap_year(2100));
    assert!(!is_leap_year(1900));
}

#[test]
fn leap_years_before_year_zero() {
    assert!(is_leap_year(-4));
    assert!(is_leap_year(-400));
    assert!(!is_leap_year(-100));
    assert!(!is_leap_year(-1));
    assert!(is_leap_year(0));
}

#[test]
fn test_days_in_month() {
    assert_eq!(days_in_month(1, 2023), 31);
    assert_eq!(days_in_month(2, 2023), 28);
    assert_eq!(days_in_month(2, 2024), 29);
    assert_eq!(days_in_month(4, 2023), 30);
    assert_eq!(days_in_month(12, 2023), 31);
}

#[test]
fn test_validity_no_restriction() {
    assert!(is_valid_in_current_month(None));
}

#[test]
fn validity_rules_by_day() {
    assert!(is_valid_in_month(Some(28), 2, 2023));
    assert!(!is_valid_in_month(Some(29), 2, 2023));
    assert!(is_valid_in_month(Some(29), 2, 2024));
    assert!(!is_valid_in_month(Some(30), 2, 2024));
    assert!(is_valid_in_month(Some(30), 4, 2024));
    assert!(!is_valid_in_month(Some(31), 4, 2024));
    assert!(is_valid_in_month(Some(31), 1, 2024));
    assert!(is_valid_in_month(None, 2, 2023));
    assert!(is_valid_in_current_month(Some(28)));
}

fn address_on_day(id: usize, day: u8, valid: bool) -> StoredAddress {
    let db = DB::from_dag_tid(
        Some("22100".to_string()),
        "Storgatan 10".to_string(),
        Some("Storgatan".to_string()),
        Some("10".to_string()),
        None,
        day,
        "0800-1200",
        None,
        None,
        None,
        2024,
        1,
    )
    .expect("restriction should be built");
    StoredAddress {
        id,
        street: "Storgatan".to_string(),
        street_number: "10".to_string(),
        postal_code: "22100".to_string(),
        valid,
        active: true,
        matched_entry: Some(db),
    }
}

#[test]
fn validity_update_for_february() {
    let mut addresses = vec![
        address_on_day(1, 30, true),
        address_on_day(2, 15, true),
        address_on_day(3, 31, false),
        StoredAddress {
            id: 4,
            street: "Okänd".to_string(),
            street_number: "1".to_string(),
            postal_code: "99999".to_string(),
            valid: false,
            active: true,
            matched_entry: None,
        },
    ];
    assert!(check_and_update_validity_for(&mut addresses, 2, 2024));
    assert!(!addresses[0].valid);
    assert!(addresses[1].valid);
    assert!(!addresses[2].valid);
    assert!(!addresses[3].valid);
    assert!(!check_and_update_validity_for(&mut addresses, 2, 2024));
    assert!(check_and_update_validity_for(&mut addresses, 3, 2024));
    assert!(addresses[0].valid && addresses[2].valid);
    assert!(!addresses[3].valid);
}

#[test]
fn storage_paths() {
    assert_eq!(get_settings_path("/data/files"), "/data/files/settings.parquet");
    assert_eq!(get_settings_path("/data/files/"), "/data/files/settings.parquet");
    assert_eq!(get_local_parquet_path(""), "local.parquet");
    assert_eq!(get_backup_parquet_path("/tmp"), "/tmp/local.parquet.backup");
    assert_eq!(get_state_file_path("/tmp"), "/tmp/notification_state.parquet");
}

#[test]
fn settings_menu_changes() {
    let s = AppSettings::default();
    let dark = apply_settings_change(&s, SettingsChange::ToggleDarkMode);
    assert_eq!(dark.theme, Theme::Dark);
    assert_eq!(apply_settings_change(&dark, SettingsChange::ToggleDarkMode), s);
    let day = apply_settings_change(&s, SettingsChange::ToggleOneDay);
    assert!(day.notifications.en_dag && day.notifications.stadning_nu);
    let now_off = apply_settings_change(&s, SettingsChange::ToggleCleaningNow);
    assert!(!now_off.notifications.stadning_nu);
    let six_off = apply_settings_change(&s, SettingsChange::ToggleSixHours);
    assert!(!six_off.notifications.sex_timmar);
    assert_eq!(apply_settings_change(&s, SettingsChange::SetLanguage(Language::English)).language, Language::English);
}
