//! The notification channels of the app and the notifications sent when an
//! address enters the buckets of one day, six hours and "in force now".
use vstd::prelude::*;
use crate::components::dormant::{address_text, compose_address_text, is_notification, DormantNotification};
use crate::components::settings::AppSettings;
use crate::ui::StoredAddress;

verus! {

/// Channel of the notifications while the cleaning is in progress.
pub const CHANNEL_ACTIVE: &'static str = "amp_active";

/// Channel of the six-hour warnings.
pub const CHANNEL_SIX_HOURS: &'static str = "amp_six_hours";

/// Channel of the one-day reminders.
pub const CHANNEL_ONE_DAY: &'static str = "amp_one_day";

/// Importance of a notification channel.
#[derive(Clone, Copy, Debug, PartialEq, Eq, Structural)]
pub enum Importance {
    High,
    Low,
}

/// A notification channel to create: its id, importance, and whether its
/// notifications make a sound, vibrate and pop up over the screen.
#[derive(Clone, Copy, Debug, PartialEq, Eq)]
pub struct ChannelSpec {
    pub id: &'static str,
    pub importance: Importance,
    pub sound: bool,
    pub vibration: bool,
    pub heads_up: bool,
}

/// The channels to create when the app starts: "in force now" (high importance,
/// sound, vibration, pop-up), six hours (high importance, sound, vibration) and
/// one day (low importance, silent).
pub fn initialize_notification_channels() -> (r: Vec<ChannelSpec>)
    ensures
        r@.len() == 3,
        r@[0].id@ == "amp_active"@ && r@[0].importance == Importance::High && r@[0].sound
            && r@[0].vibration && r@[0].heads_up,
        r@[1].id@ == "amp_six_hours"@ && r@[1].importance == Importance::High && r@[1].sound
            && r@[1].vibration && !r@[1].heads_up,
        r@[2].id@ == "amp_one_day"@ && r@[2].importance == Importance::Low && !r@[2].sound
            && !r@[2].vibration && !r@[2].heads_up,
{
    let mut channels: Vec<ChannelSpec> = Vec::new();
    channels.push(
        ChannelSpec {
            id: CHANNEL_ACTIVE,
            importance: Importance::High,
            sound: true,
            vibration: true,
            heads_up: true,
        },
    );
    channels.push(
        ChannelSpec {
            id: CHANNEL_SIX_HOURS,
            importance: Importance::High,
            sound: true,
            vibration: true,
            heads_up: false,
        },
    );
    channels.push(
        ChannelSpec {
            id: CHANNEL_ONE_DAY,
            importance: Importance::Low,
            sound: false,
            vibration: false,
            heads_up: false,
        },
    );
    channels
}

fn notification(a: &StoredAddress, channel: &str, title: &str, body: String) -> (r: DormantNotification)
    ensures
        is_notification(r, *a, channel@, title@, body@),
{
    DormantNotification {
        channel_id: String::from_str(channel),
        notification_id: a.id as i32,
        title: String::from_str(title),
        body,
    }
}

/// The reminder for an address entering the one-day bucket, when the settings
/// ask for one-day reminders.
pub fn notify_one_day(address: &StoredAddress, settings: &AppSettings) -> (r: Option<DormantNotification>)
    ensures
        settings.notifications.en_dag ==> (r matches Some(n) && is_notification(
            n,
            *address,
            "amp_one_day"@,
            "📅 Street cleaning tomorrow"@,
            address_text(
                "Street cleaning tomorrow on "@,
                address.street@,
                ". Plan to move your car from "@,
                address.street_number@,
                "."@,
            ),
        )),
        !settings.notifications.en_dag ==> r is None,
{
    if !settings.notifications.en_dag {
        return None;
    }
    let body = compose_address_text(
        "Street cleaning tomorrow on ",
        address.street.as_str(),
        ". Plan to move your car from ",
        address.street_number.as_str(),
        ".",
    );
    Some(notification(address, CHANNEL_ONE_DAY, "📅 Street cleaning tomorrow", body))
}

/// The warning for an address entering the six-hour bucket, when the settings
/// ask for six-hour warnings.
pub fn notify_six_hours(address: &StoredAddress, settings: &AppSettings) -> (r: Option<DormantNotification>)
    ensures
        settings.notifications.sex_timmar ==> (r matches Some(n) && is_notification(
            n,
            *address,
            "amp_six_hours"@,
            "⏰ Street cleaning in 6 hours"@,
            address_text(
                "Street cleaning starting soon on "@,
                address.street@,
                ". Consider moving your car from "@,
                address.street_number@,
                "."@,
            ),
        )),
        !settings.notifications.sex_timmar ==> r is None,
{
    if !settings.notifications.sex_timmar {
        return None;
    }
    let body = compose_address_text(
        "Street cleaning starting soon on ",
        address.street.as_str(),
        ". Consider moving your car from ",
        address.street_number.as_str(),
        ".",
    );
    Some(notification(address, CHANNEL_SIX_HOURS, "⏰ Street cleaning in 6 hours", body))
}

/// The alert for an address whose cleaning is in progress, when the settings ask
/// for such alerts.
pub fn notify_active(address: &StoredAddress, settings: &AppSettings) -> (r: Option<DormantNotification>)
    ensures
        settings.notifications.stadning_nu ==> (r matches Some(n) && is_notification(
            n,
            *address,
            "amp_active"@,
            "🚫 Street cleaning NOW!"@,
            address_text(
                "Street cleaning active on "@,
                address.street@,
                ". Your car at "@,
                address.street_number@,
                " is in an active zone!"@,
            ),
        )),
        !settings.notifications.stadning_nu ==> r is None,
{
    if !settings.notifications.stadning_nu {
        return None;
    }
    let body = compose_address_text(
        "Street cleaning active on ",
        address.street.as_str(),
        ". Your car at ",
        address.street_number.as_str(),
        " is in an active zone!",
    );
    Some(notification(address, CHANNEL_ACTIVE, "🚫 Street cleaning NOW!", body))
}

} // verus!
