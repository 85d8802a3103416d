//! The hourly check made while the app is in the background: the transitions of
//! the active addresses and the notifications that the user's settings allow.
use vstd::prelude::*;
use crate::components::countdown::TimeBucket;
use crate::components::settings::AppSettings;
use crate::components::transitions::{detect_transitions_at, state_after, transitions_of, PanelState};
use crate::ui::StoredAddress;

verus! {

/// A notification to show: its channel, id, title and text.
#[derive(Debug)]
pub struct DormantNotification {
    pub channel_id: String,
    pub notification_id: i32,
    pub title: String,
    pub body: String,
}

impl Clone for DormantNotification {
    fn clone(&self) -> (r: Self)
        ensures
            r == *self,
    {
        DormantNotification {
            channel_id: self.channel_id.clone(),
            notification_id: self.notification_id,
            title: self.title.clone(),
            body: self.body.clone(),
        }
    }
}

/// `prefix street middle street number suffix`: the text pattern of the
/// notifications, which name the street and then the full address.
pub open spec fn address_text(
    prefix: Seq<char>,
    street: Seq<char>,
    middle: Seq<char>,
    number: Seq<char>,
    suffix: Seq<char>,
) -> Seq<char> {
    prefix + street + middle + street + seq![' '] + number + suffix
}

/// Writes `address_text`.
pub fn compose_address_text(prefix: &str, street: &str, middle: &str, number: &str, suffix: &str) -> (r: String)
    ensures
        r@ == address_text(prefix@, street@, middle@, number@, suffix@),
{
    let mut s = String::from_str(prefix);
    s.append(street);
    s.append(middle);
    s.append(street);
    s.append(" ");
    s.append(number);
    s.append(suffix);
    proof {
        reveal_strlit(" ");
    }
    s
}

/// `n` is the notification with these channel, title and text for address `a`;
/// its id is the address id taken as an `i32`.
pub open spec fn is_notification(
    n: DormantNotification,
    a: StoredAddress,
    channel: Seq<char>,
    title: Seq<char>,
    body: Seq<char>,
) -> bool {
    &&& n.channel_id@ == channel
    &&& n.notification_id == a.id as i32
    &&& n.title@ == title
    &&& n.body@ == body
}

/// The background notification for an address that reached `bucket`, when the
/// settings ask for it: in force now, within six hours, within a day.
pub open spec fn background_notice(a: StoredAddress, bucket: TimeBucket, settings: AppSettings) -> Option<
    (Seq<char>, Seq<char>, Seq<char>),
> {
    let s = a.street@;
    let n = a.street_number@;
    match bucket {
        TimeBucket::Now => if settings.notifications.stadning_nu {
            Some(
                (
                    "amp_active"@,
                    "Städning NU!"@,
                    address_text("Städning pågående på "@, s, ". Din bil på "@, n, " kan få böter!"@),
                ),
            )
        } else {
            None
        },
        TimeBucket::Within6Hours => if settings.notifications.sex_timmar {
            Some(
                (
                    "amp_six_hours"@,
                    "Städning om 6 timmar"@,
                    address_text("Städning börjar snart på "@, s, ". Du bör flytta din bil från "@, n, "."@),
                ),
            )
        } else {
            None
        },
        TimeBucket::Within1Day => if settings.notifications.en_dag {
            Some(
                (
                    "amp_one_day"@,
                    "Städning inom 1 dygn"@,
                    address_text(
                        "Städning inom 1 dygn på "@,
                        s,
                        ". Planera att flytta din bil från "@,
                        n,
                        "."@,
                    ),
                ),
            )
        } else {
            None
        },
        _ => None,
    }
}

/// Which background notice each bucket gets: in force now, the "amp_active" notice
/// titled "Städning NU!", exactly when `stadning_nu` is on; within six hours, the
/// "amp_six_hours" notice titled "Städning om 6 timmar", exactly when `sex_timmar`
/// is on; within a day, the "amp_one_day" notice titled "Städning inom 1 dygn",
/// exactly when `en_dag` is on; no other bucket gets one. Each setting governs its
/// own bucket alone.
pub proof fn lemma_background_notice_rules(a: StoredAddress, settings: AppSettings)
    ensures
        background_notice(a, TimeBucket::Now, settings) is Some <==> settings.notifications.stadning_nu,
        background_notice(a, TimeBucket::Within6Hours, settings) is Some <==> settings.notifications.sex_timmar,
        background_notice(a, TimeBucket::Within1Day, settings) is Some <==> settings.notifications.en_dag,
        background_notice(a, TimeBucket::Within1Month, settings) is None,
        background_notice(a, TimeBucket::MoreThan1Month, settings) is None,
        background_notice(a, TimeBucket::Invalid, settings) is None,
        background_notice(a, TimeBucket::Now, settings) matches Some(n) ==> n.0 == "amp_active"@ && n.1
            == "Städning NU!"@,
        background_notice(a, TimeBucket::Within6Hours, settings) matches Some(n) ==> n.0 == "amp_six_hours"@
            && n.1 == "Städning om 6 timmar"@,
        background_notice(a, TimeBucket::Within1Day, settings) matches Some(n) ==> n.0 == "amp_one_day"@ && n.1
            == "Städning inom 1 dygn"@,
{
}

/// One transition gives one background notification exactly when its new bucket's
/// setting is on, and that notification is for its address.
pub proof fn lemma_one_transition_notice(
    t: (StoredAddress, Option<TimeBucket>, TimeBucket),
    settings: AppSettings,
    notes: Seq<DormantNotification>,
)
    requires
        notices_of(seq![t], settings, notes),
    ensures
        notes.len() == (if background_notice(t.0, t.2, settings) is Some { 1int } else { 0int }),
        notes.len() == 1 ==> notes[0].notification_id == t.0.id as i32,
{
    reveal_with_fuel(notices_by, 2);
    let s = seq![t];
    assert(s.drop_last() =~= Seq::<(StoredAddress, Option<TimeBucket>, TimeBucket)>::empty());
    assert(s.last() == t);
}

fn background_notification(a: &StoredAddress, bucket: TimeBucket, settings: &AppSettings) -> (r: Option<
    DormantNotification,
>)
    ensures
        match background_notice(*a, bucket, *settings) {
            Some((c, t, b)) => r matches Some(n) && is_notification(n, *a, c, t, b),
            None => r is None,
        },
{
    let street = a.street.as_str();
    let number = a.street_number.as_str();
    let (channel, title, body) = match bucket {
        TimeBucket::Now => {
            if !settings.notifications.stadning_nu {
                return None;
            }
            (
                "amp_active",
                "Städning NU!",
                compose_address_text("Städning pågående på ", street, ". Din bil på ", number, " kan få böter!"),
            )
        },
        TimeBucket::Within6Hours => {
            if !settings.notifications.sex_timmar {
                return None;
            }
            (
                "amp_six_hours",
                "Städning om 6 timmar",
                compose_address_text(
                    "Städning börjar snart på ",
                    street,
                    ". Du bör flytta din bil från ",
                    number,
                    ".",
                ),
            )
        },
        TimeBucket::Within1Day => {
            if !settings.notifications.en_dag {
                return None;
            }
            (
                "amp_one_day",
                "Städning inom 1 dygn",
                compose_address_text(
                    "Städning inom 1 dygn på ",
                    street,
                    ". Planera att flytta din bil från ",
                    number,
                    ".",
                ),
            )
        },
        _ => return None,
    };
    Some(
        DormantNotification {
            channel_id: String::from_str(channel),
            notification_id: a.id as i32,
            title: String::from_str(title),
            body,
        },
    )
}

/// The addresses that are active and have a restriction, in order.
pub open spec fn active_matched(s: Seq<StoredAddress>) -> Seq<StoredAddress>
    decreases s.len(),
{
    if s.len() == 0 {
        Seq::empty()
    } else {
        let p = active_matched(s.drop_last());
        if s.last().active && s.last().matched_entry is Some { p.push(s.last()) } else { p }
    }
}

/// The background check looks exactly at the addresses that are active and have a
/// restriction: each one it looks at is such an address of the list, and each
/// such address is looked at.
pub proof fn lemma_active_matched_members(s: Seq<StoredAddress>)
    ensures
        forall|k: int|
            0 <= k < active_matched(s).len() ==> (#[trigger] active_matched(s)[k]).active
                && active_matched(s)[k].matched_entry is Some && s.contains(active_matched(s)[k]),
        forall|i: int|
            0 <= i < s.len() && (#[trigger] s[i]).active && s[i].matched_entry is Some ==> active_matched(
                s,
            ).contains(s[i]),
    decreases s.len(),
{
    if s.len() > 0 {
        let d = s.drop_last();
        lemma_active_matched_members(d);
        let f = active_matched(d);
        assert forall|k: int| 0 <= k < active_matched(s).len() implies (#[trigger] active_matched(s)[k]).active
            && active_matched(s)[k].matched_entry is Some && s.contains(active_matched(s)[k]) by {
            if k < f.len() {
                assert(active_matched(s)[k] == f[k]);
                let j = choose|j: int| 0 <= j < d.len() && d[j] == f[k];
                assert(s[j] == d[j]);
            } else {
                assert(s[s.len() - 1] == s.last());
            }
        }
        assert forall|i: int| 0 <= i < s.len() && (#[trigger] s[i]).active && s[i].matched_entry is Some implies active_matched(
            s,
        ).contains(s[i]) by {
            if i < s.len() - 1 {
                assert(d[i] == s[i]);
                let j = choose|j: int| 0 <= j < f.len() && f[j] == d[i];
                assert(active_matched(s)[j] == f[j]);
            } else {
                assert(s.last() == s[i]);
                assert(active_matched(s)[f.len() as int] == s[i]);
            }
        }
    }
}

/// `notes` are the notifications that `notice` gives for `transitions`, in order:
/// one for each transition (address, previous bucket, new bucket) for which
/// `notice` gives a channel, title and text.
pub open spec fn notices_by(
    transitions: Seq<(StoredAddress, Option<TimeBucket>, TimeBucket)>,
    notice: spec_fn(StoredAddress, TimeBucket) -> Option<(Seq<char>, Seq<char>, Seq<char>)>,
    notes: Seq<DormantNotification>,
) -> bool
    decreases transitions.len(),
{
    if transitions.len() == 0 {
        notes.len() == 0
    } else {
        let t = transitions.last();
        match notice(t.0, t.2) {
            Some((c, ti, b)) => notes.len() > 0 && is_notification(notes.last(), t.0, c, ti, b) && notices_by(
                transitions.drop_last(),
                notice,
                notes.drop_last(),
            ),
            None => notices_by(transitions.drop_last(), notice, notes),
        }
    }
}

/// `notes` are the background notifications owed for `transitions` under
/// `settings`.
pub open spec fn notices_of(
    transitions: Seq<(StoredAddress, Option<TimeBucket>, TimeBucket)>,
    settings: AppSettings,
    notes: Seq<DormantNotification>,
) -> bool {
    notices_by(transitions, |a: StoredAddress, b: TimeBucket| background_notice(a, b, settings), notes)
}

fn select_active(addresses: &Vec<StoredAddress>) -> (r: Vec<StoredAddress>)
    ensures
        r@ == active_matched(addresses@),
{
    let mut out: Vec<StoredAddress> = Vec::new();
    let mut i: usize = 0;
    while i < addresses.len()
        invariant
            i <= addresses@.len(),
            out@ == active_matched(addresses@.take(i as int)),
        decreases addresses@.len() - i,
    {
        proof {
            assert(addresses@.take(i + 1).drop_last() =~= addresses@.take(i as int));
            assert(addresses@.take(i + 1).last() == addresses@[i as int]);
        }
        if addresses[i].active && addresses[i].matched_entry.is_some() {
            out.push(addresses[i].clone());
        }
        i = i + 1;
    }
    proof {
        assert(addresses@.take(addresses@.len() as int) =~= addresses@);
    }
    out
}

/// The background notifications owed for `transitions` under `settings`.
pub fn background_notifications(
    transitions: &Vec<(StoredAddress, Option<TimeBucket>, TimeBucket)>,
    settings: &AppSettings,
) -> (r: Vec<DormantNotification>)
    ensures
        notices_of(transitions@, *settings, r@),
{
    let mut out: Vec<DormantNotification> = Vec::new();
    let mut i: usize = 0;
    while i < transitions.len()
        invariant
            i <= transitions@.len(),
            notices_of(transitions@.take(i as int), *settings, out@),
        decreases transitions@.len() - i,
    {
        let ghost before = out@;
        proof {
            assert(transitions@.take(i + 1).drop_last() =~= transitions@.take(i as int));
            assert(transitions@.take(i + 1).last() == transitions@[i as int]);
        }
        let t = &transitions[i];
        match background_notification(&t.0, t.2, settings) {
            Some(n) => {
                out.push(n);
                proof {
                    assert(out@.drop_last() =~= before);
                }
            },
            None => {},
        }
        i = i + 1;
    }
    proof {
        assert(transitions@.take(transitions@.len() as int) =~= transitions@);
    }
    out
}

/// The hourly background check at `now`: with no stored address, or none active
/// with a restriction, nothing happens; otherwise the transitions of the active
/// addresses with a restriction are detected (and recorded in `tracker`) and the
/// notifications that `settings` allow are returned.
pub fn dormant_hourly_check_at(
    tracker: &mut PanelState,
    addresses: &Vec<StoredAddress>,
    settings: &AppSettings,
    now: i64,
) -> (r: Vec<DormantNotification>)
    ensures
        active_matched(addresses@).len() == 0 ==> r@.len() == 0 && final(tracker)@ == old(tracker)@,
        active_matched(addresses@).len() > 0 ==> {
            &&& final(tracker)@ == state_after(old(tracker)@, active_matched(addresses@), now as int)
            &&& notices_of(
                transitions_of(old(tracker)@, active_matched(addresses@), now as int),
                *settings,
                r@,
            )
        },
{
    if addresses.len() == 0 {
        proof {
            assert(active_matched(addresses@) =~= Seq::<StoredAddress>::empty());
        }
        return Vec::new();
    }
    let active = select_active(addresses);
    if active.len() == 0 {
        return Vec::new();
    }
    let transitions = detect_transitions_at(tracker, &active, now);
    background_notifications(&transitions, settings)
}

} // verus!
