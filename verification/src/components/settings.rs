//! User preferences (notifications, theme, language) and their persisted form.
use vstd::prelude::*;
use crate::structs::SettingsData;
use crate::text::{join_path, joined_path, str_eq};

verus! {

/// Which notifications the user wants.
#[derive(Clone, Copy, Debug, PartialEq, Eq, Structural)]
pub struct NotificationSettings {
    /// When the street cleaning is in progress.
    pub stadning_nu: bool,
    /// Six hours before the cleaning.
    pub sex_timmar: bool,
    /// One day before the cleaning.
    pub en_dag: bool,
}

impl Default for NotificationSettings {
    fn default() -> (r: Self)
        ensures
            r == (NotificationSettings { stadning_nu: true, sex_timmar: true, en_dag: false }),
    {
        NotificationSettings { stadning_nu: true, sex_timmar: true, en_dag: false }
    }
}

/// Colour theme.
#[derive(Clone, Copy, Debug, PartialEq, Eq, Structural)]
pub enum Theme {
    Light,
    Dark,
}

impl Default for Theme {
    fn default() -> (r: Self)
        ensures
            r == Theme::Light,
    {
        Theme::Light
    }
}

/// Persisted and displayed name of a theme.
pub open spec fn theme_name(t: Theme) -> Seq<char> {
    match t {
        Theme::Light => "Light"@,
        Theme::Dark => "Dark"@,
    }
}

/// The theme persisted under `s`; anything but `Dark` reads as `Light`.
pub open spec fn theme_of_name(s: Seq<char>) -> Theme {
    if s == "Dark"@ { Theme::Dark } else { Theme::Light }
}

impl Theme {
    /// Name of the theme.
    pub fn to_string(&self) -> (r: String)
        ensures
            r@ == theme_name(*self),
    {
        match self {
            Theme::Light => String::from_str("Light"),
            Theme::Dark => String::from_str("Dark"),
        }
    }

    /// The theme named `s`; anything but `Dark` reads as `Light`.
    pub fn from_string(s: &str) -> (r: Theme)
        ensures
            r == theme_of_name(s@),
    {
        if str_eq(s, "Dark") {
            Theme::Dark
        } else {
            Theme::Light
        }
    }
}

/// Languages of the interface.
#[derive(Clone, Copy, Debug, PartialEq, Eq, Structural)]
pub enum Language {
    Svenska,
    English,
    Espanol,
    Francais,
}

impl Default for Language {
    fn default() -> (r: Self)
        ensures
            r == Language::Svenska,
    {
        Language::Svenska
    }
}

/// Persisted name of a language, without accents.
pub open spec fn language_key(l: Language) -> Seq<char> {
    match l {
        Language::Svenska => "Svenska"@,
        Language::English => "English"@,
        Language::Espanol => "Espanol"@,
        Language::Francais => "Francais"@,
    }
}

/// Name of a language as the interface shows it, with accents.
pub open spec fn language_display(l: Language) -> Seq<char> {
    match l {
        Language::Svenska => "Svenska"@,
        Language::English => "English"@,
        Language::Espanol => "Español"@,
        Language::Francais => "Français"@,
    }
}

/// The language persisted under `s`; an unknown key reads as Swedish.
pub open spec fn language_of_key(s: Seq<char>) -> Language {
    if s == "English"@ {
        Language::English
    } else if s == "Espanol"@ {
        Language::Espanol
    } else if s == "Francais"@ {
        Language::Francais
    } else {
        Language::Svenska
    }
}

impl Language {
    /// Persisted name of the language, without accents.
    pub fn as_str(&self) -> (r: &'static str)
        ensures
            r@ == language_key(*self),
    {
        match self {
            Language::Svenska => "Svenska",
            Language::English => "English",
            Language::Espanol => "Espanol",
            Language::Francais => "Francais",
        }
    }

    /// Name of the language as the interface shows it, with accents.
    pub fn display_name(&self) -> (r: &'static str)
        ensures
            r@ == language_display(*self),
    {
        match self {
            Language::Svenska => "Svenska",
            Language::English => "English",
            Language::Espanol => "Español",
            Language::Francais => "Français",
        }
    }

    /// Persisted name of the language, as an owned string.
    pub fn to_string(&self) -> (r: String)
        ensures
            r@ == language_key(*self),
    {
        String::from_str(self.as_str())
    }

    /// The language persisted under `s`; an unknown key reads as Swedish.
    pub fn from_string(s: &str) -> (r: Language)
        ensures
            r == language_of_key(s@),
    {
        if str_eq(s, "English") {
            Language::English
        } else if str_eq(s, "Espanol") {
            Language::Espanol
        } else if str_eq(s, "Francais") {
            Language::Francais
        } else {
            Language::Svenska
        }
    }
}

/// All preferences of the app.
#[derive(Clone, Copy, Debug, PartialEq, Eq, Structural)]
pub struct AppSettings {
    pub notifications: NotificationSettings,
    pub theme: Theme,
    pub language: Language,
}

impl Default for AppSettings {
    fn default() -> (r: Self)
        ensures
            r == default_settings(),
    {
        AppSettings {
            notifications: NotificationSettings::default(),
            theme: Theme::default(),
            language: Language::default(),
        }
    }
}

/// The preferences of a fresh install: notify while cleaning and six hours
/// before, light theme, Swedish.
pub open spec fn default_settings() -> AppSettings {
    AppSettings {
        notifications: NotificationSettings { stadning_nu: true, sex_timmar: true, en_dag: false },
        theme: Theme::Light,
        language: Language::Svenska,
    }
}

/// The preferences that persisted fields describe.
pub open spec fn settings_of_fields(
    stadning_nu: bool,
    sex_timmar: bool,
    en_dag: bool,
    theme: Seq<char>,
    language: Seq<char>,
) -> AppSettings {
    AppSettings {
        notifications: NotificationSettings { stadning_nu, sex_timmar, en_dag },
        theme: theme_of_name(theme),
        language: language_of_key(language),
    }
}

/// Persisting preferences and reading them back gives the same preferences.
pub proof fn lemma_settings_roundtrip(s: AppSettings)
    ensures
        settings_of_fields(
            s.notifications.stadning_nu,
            s.notifications.sex_timmar,
            s.notifications.en_dag,
            theme_name(s.theme),
            language_key(s.language),
        ) == s,
{
    reveal_strlit("Light");
    reveal_strlit("Dark");
    reveal_strlit("Svenska");
    reveal_strlit("English");
    reveal_strlit("Espanol");
    reveal_strlit("Francais");
    assert("Light"@.len() != "Dark"@.len());
    assert("Svenska"@[0] != "English"@[0]);
    assert("Svenska"@[0] != "Espanol"@[0]);
    assert("Svenska"@[0] != "Francais"@[0]);
    assert("English"@[1] != "Espanol"@[1]);
    assert("English"@.len() != "Francais"@.len());
    assert("Espanol"@.len() != "Francais"@.len());
}

/// The persisted form of the preferences.
pub fn to_settings_data(settings: &AppSettings) -> (r: SettingsData)
    ensures
        r.stadning_nu == settings.notifications.stadning_nu,
        r.sex_timmar == settings.notifications.sex_timmar,
        r.en_dag == settings.notifications.en_dag,
        r.theme@ == theme_name(settings.theme),
        r.language@ == language_key(settings.language),
{
    SettingsData {
        stadning_nu: settings.notifications.stadning_nu,
        sex_timmar: settings.notifications.sex_timmar,
        en_dag: settings.notifications.en_dag,
        theme: settings.theme.to_string(),
        language: settings.language.to_string(),
    }
}

/// The preferences that a persisted record describes.
pub fn from_settings_data(data: SettingsData) -> (r: AppSettings)
    ensures
        r == settings_of_fields(data.stadning_nu, data.sex_timmar, data.en_dag, data.theme@, data.language@),
{
    AppSettings {
        notifications: NotificationSettings {
            stadning_nu: data.stadning_nu,
            sex_timmar: data.sex_timmar,
            en_dag: data.en_dag,
        },
        theme: Theme::from_string(data.theme.as_str()),
        language: Language::from_string(data.language.as_str()),
    }
}

/// The preferences stored in a settings file's records: those of the first
/// record, or the defaults when there is none.
pub fn settings_from_records(records: &Vec<SettingsData>) -> (r: AppSettings)
    ensures
        records@.len() == 0 ==> r == default_settings(),
        records@.len() > 0 ==> r == settings_of_fields(
            records@[0].stadning_nu,
            records@[0].sex_timmar,
            records@[0].en_dag,
            records@[0].theme@,
            records@[0].language@,
        ),
{
    if records.len() == 0 {
        AppSettings::default()
    } else {
        let first = &records[0];
        AppSettings {
            notifications: NotificationSettings {
                stadning_nu: first.stadning_nu,
                sex_timmar: first.sex_timmar,
                en_dag: first.en_dag,
            },
            theme: Theme::from_string(first.theme.as_str()),
            language: Language::from_string(first.language.as_str()),
        }
    }
}

/// Path of the settings file in the app's storage directory.
pub fn get_settings_path(storage_dir: &str) -> (r: String)
    ensures
        r@ == joined_path(storage_dir@, "settings.parquet"@),
{
    join_path(storage_dir, "settings.parquet")
}

/// A change that the settings menu makes.
#[derive(Clone, Copy, Debug, PartialEq, Eq, Structural)]
pub enum SettingsChange {
    /// Switch the notification while cleaning is in progress.
    ToggleCleaningNow,
    /// Switch the six-hour warning.
    ToggleSixHours,
    /// Switch the one-day reminder.
    ToggleOneDay,
    /// Switch between the dark and the light theme.
    ToggleDarkMode,
    /// Choose the interface language.
    SetLanguage(Language),
}

/// The preferences after a change from the settings menu.
pub open spec fn changed_settings(s: AppSettings, change: SettingsChange) -> AppSettings {
    let n = s.notifications;
    match change {
        SettingsChange::ToggleCleaningNow => AppSettings {
            notifications: NotificationSettings { stadning_nu: !n.stadning_nu, ..n },
            ..s
        },
        SettingsChange::ToggleSixHours => AppSettings {
            notifications: NotificationSettings { sex_timmar: !n.sex_timmar, ..n },
            ..s
        },
        SettingsChange::ToggleOneDay => AppSettings {
            notifications: NotificationSettings { en_dag: !n.en_dag, ..n },
            ..s
        },
        SettingsChange::ToggleDarkMode => AppSettings {
            theme: if s.theme == Theme::Dark { Theme::Light } else { Theme::Dark },
            ..s
        },
        SettingsChange::SetLanguage(l) => AppSettings { language: l, ..s },
    }
}

/// Applies a change from the settings menu.
pub fn apply_settings_change(settings: &AppSettings, change: SettingsChange) -> (r: AppSettings)
    ensures
        r == changed_settings(*settings, change),
{
    let mut s = *settings;
    match change {
        SettingsChange::ToggleCleaningNow => {
            s.notifications.stadning_nu = !s.notifications.stadning_nu;
        },
        SettingsChange::ToggleSixHours => {
            s.notifications.sex_timmar = !s.notifications.sex_timmar;
        },
        SettingsChange::ToggleOneDay => {
            s.notifications.en_dag = !s.notifications.en_dag;
        },
        SettingsChange::ToggleDarkMode => {
            s.theme = match s.theme {
                Theme::Dark => Theme::Light,
                Theme::Light => Theme::Dark,
            };
        },
        SettingsChange::SetLanguage(l) => {
            s.language = l;
        },
    }
    s
}

/// Each change of the settings menu touches only its own preference: the three
/// notification switches flip their own flag, the dark-mode switch swaps dark and
/// light, and choosing a language sets it; everything else stays.
pub proof fn lemma_settings_change_effect(s: AppSettings, change: SettingsChange)
    ensures
        ({
            let r = changed_settings(s, change);
            match change {
                SettingsChange::ToggleCleaningNow => r.notifications.stadning_nu == !s.notifications.stadning_nu
                    && r.notifications.sex_timmar == s.notifications.sex_timmar && r.notifications.en_dag
                    == s.notifications.en_dag && r.theme == s.theme && r.language == s.language,
                SettingsChange::ToggleSixHours => r.notifications.sex_timmar == !s.notifications.sex_timmar
                    && r.notifications.stadning_nu == s.notifications.stadning_nu && r.notifications.en_dag
                    == s.notifications.en_dag && r.theme == s.theme && r.language == s.language,
                SettingsChange::ToggleOneDay => r.notifications.en_dag == !s.notifications.en_dag
                    && r.notifications.stadning_nu == s.notifications.stadning_nu && r.notifications.sex_timmar
                    == s.notifications.sex_timmar && r.theme == s.theme && r.language == s.language,
                SettingsChange::ToggleDarkMode => (s.theme == Theme::Dark ==> r.theme == Theme::Light) && (s.theme
                    != Theme::Dark ==> r.theme == Theme::Dark) && r.notifications == s.notifications && r.language
                    == s.language,
                SettingsChange::SetLanguage(l) => r.language == l && r.notifications == s.notifications && r.theme
                    == s.theme,
            }
        }),
{
}

/// Every switch of the settings menu undoes itself when used twice.
pub proof fn lemma_toggle_twice_restores(s: AppSettings, change: SettingsChange)
    requires
        !(change is SetLanguage),
    ensures
        changed_settings(changed_settings(s, change), change) == s,
{
}

/// The section of the settings menu that is unfolded (`Closed`: none).
#[derive(Clone, Copy, Debug, PartialEq, Eq, Structural)]
pub enum OpenSection {
    Closed,
    ImportExport,
    Aviseringar,
    Installningar,
    Info,
    Debug,
}

/// Milliseconds between folding one section and unfolding another.
pub const SECTION_SWITCH_DELAY_MS: u64 = 300;

/// What clicking the header of `target` does when `current` is unfolded: the
/// section to show at once, and the one to unfold after the delay, if any.
/// Clicking the unfolded section folds it; clicking another one while a section
/// is unfolded folds that one first and unfolds the target after the delay;
/// clicking with none unfolded unfolds the target at once.
pub open spec fn section_toggle(current: OpenSection, target: OpenSection) -> (OpenSection, Option<OpenSection>) {
    if current == target {
        (OpenSection::Closed, None)
    } else if current != OpenSection::Closed {
        (OpenSection::Closed, Some(target))
    } else {
        (target, None)
    }
}

/// The step of the settings menu when the header of `target` is clicked.
pub fn toggle_section(current: OpenSection, target: OpenSection) -> (r: (OpenSection, Option<OpenSection>))
    ensures
        r == section_toggle(current, target),
{
    if current == target {
        (OpenSection::Closed, None)
    } else if current != OpenSection::Closed {
        (OpenSection::Closed, Some(target))
    } else {
        (target, None)
    }
}

} // verus!
