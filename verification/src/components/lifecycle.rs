//! Life cycle of the app's background work: starting and stopping, the daily
//! tasks (run at most once per local day) and the periodic notification check.
//! The manager decides; the caller performs the actions it returns (creating the
//! channels, reading and writing storage, showing notifications).
use vstd::prelude::*;
use crate::calendar::local_date;
use crate::components::countdown::TimeBucket;
use crate::components::dormant::{address_text, is_notification, notices_by, DormantNotification};
use crate::components::notifications::{notify_active, notify_one_day, notify_six_hours};
use crate::components::settings::AppSettings;
use crate::components::transitions::{detect_transitions_at, state_after, transitions_of, PanelState};
use crate::ui::StoredAddress;

verus! {

/// Work for the caller to perform.
#[derive(Clone, Copy, Debug, PartialEq, Eq, Structural)]
pub enum LifecycleAction {
    /// Create the notification channels and load the saved transition tracker.
    InitializeNotifications,
    /// Read the addresses, check their validity for the month, and write them back
    /// if any changed.
    RunDailyTasks,
    /// Check the addresses for transitions and send the notifications owed.
    CheckNotifications,
    /// Write the addresses to storage.
    SaveAddresses,
}

/// State of the background work.
pub struct LifecycleManager {
    last_daily_run: Option<(i32, u32, u32)>,
    running: bool,
    notifications_initialized: bool,
    tracker: PanelState,
}

/// Abstract state of a manager: the local date of the last daily run, whether it
/// runs, and whether the notification system was set up.
pub struct LifecycleState {
    pub last_daily_run: Option<(i32, u32, u32)>,
    pub running: bool,
    pub notifications_initialized: bool,
}

/// A state that the manager can be in: a running manager has its notification
/// system set up.
pub open spec fn consistent(s: LifecycleState) -> bool {
    s.running ==> s.notifications_initialized
}

/// State and actions after starting on `today`: a running manager does nothing;
/// otherwise it runs, sets up notifications (the first time), runs the daily tasks,
/// checks for notifications and records `today` as the day of the last daily run.
pub open spec fn start_step(s: LifecycleState, today: (i32, u32, u32)) -> (LifecycleState, Seq<LifecycleAction>) {
    if s.running {
        (s, Seq::empty())
    } else {
        let init: Seq<LifecycleAction> = if s.notifications_initialized {
            Seq::empty()
        } else {
            seq![LifecycleAction::InitializeNotifications]
        };
        (
            LifecycleState { last_daily_run: Some(today), running: true, notifications_initialized: true },
            init + seq![LifecycleAction::RunDailyTasks, LifecycleAction::CheckNotifications],
        )
    }
}

/// State and actions after shutting down: a stopped manager does nothing; a
/// running one stops and saves the addresses.
pub open spec fn shutdown_step(s: LifecycleState) -> (LifecycleState, Seq<LifecycleAction>) {
    if !s.running {
        (s, Seq::empty())
    } else {
        (LifecycleState { running: false, ..s }, seq![LifecycleAction::SaveAddresses])
    }
}

/// State after the daily check on `today`, and whether the daily tasks run: they
/// run when they never ran or last ran on another day.
pub open spec fn daily_step(s: LifecycleState, today: (i32, u32, u32)) -> (LifecycleState, bool) {
    let should_run = match s.last_daily_run {
        None => true,
        Some(last) => last != today,
    };
    if should_run {
        (LifecycleState { last_daily_run: Some(today), ..s }, true)
    } else {
        (s, false)
    }
}

/// The notification sent in the foreground for an address that reached `bucket`,
/// when the settings ask for it.
pub open spec fn foreground_notice(a: StoredAddress, bucket: TimeBucket, settings: AppSettings) -> Option<
    (Seq<char>, Seq<char>, Seq<char>),
> {
    let s = a.street@;
    let n = a.street_number@;
    match bucket {
        TimeBucket::Within1Day => if settings.notifications.en_dag {
            Some(
                (
                    "amp_one_day"@,
                    "📅 Street cleaning tomorrow"@,
                    address_text("Street cleaning tomorrow on "@, s, ". Plan to move your car from "@, n, "."@),
                ),
            )
        } else {
            None
        },
        TimeBucket::Within6Hours => if settings.notifications.sex_timmar {
            Some(
                (
                    "amp_six_hours"@,
                    "⏰ Street cleaning in 6 hours"@,
                    address_text(
                        "Street cleaning starting soon on "@,
                        s,
                        ". Consider moving your car from "@,
                        n,
                        "."@,
                    ),
                ),
            )
        } else {
            None
        },
        TimeBucket::Now => if settings.notifications.stadning_nu {
            Some(
                (
                    "amp_active"@,
                    "🚫 Street cleaning NOW!"@,
                    address_text("Street cleaning active on "@, s, ". Your car at "@, n, " is in an active zone!"@),
                ),
            )
        } else {
            None
        },
        _ => None,
    }
}

/// Which foreground notice each bucket gets: in force now, the "amp_active" notice
/// exactly when `stadning_nu` is on; within six hours, the "amp_six_hours" notice
/// exactly when `sex_timmar` is on; within a day, the "amp_one_day" notice exactly
/// when `en_dag` is on; no other bucket gets one.
pub proof fn lemma_foreground_notice_rules(a: StoredAddress, settings: AppSettings)
    ensures
        foreground_notice(a, TimeBucket::Now, settings) is Some <==> settings.notifications.stadning_nu,
        foreground_notice(a, TimeBucket::Within6Hours, settings) is Some <==> settings.notifications.sex_timmar,
        foreground_notice(a, TimeBucket::Within1Day, settings) is Some <==> settings.notifications.en_dag,
        foreground_notice(a, TimeBucket::Within1Month, settings) is None,
        foreground_notice(a, TimeBucket::MoreThan1Month, settings) is None,
        foreground_notice(a, TimeBucket::Invalid, settings) is None,
        foreground_notice(a, TimeBucket::Now, settings) matches Some(n) ==> n.0 == "amp_active"@,
        foreground_notice(a, TimeBucket::Within6Hours, settings) matches Some(n) ==> n.0 == "amp_six_hours"@,
        foreground_notice(a, TimeBucket::Within1Day, settings) matches Some(n) ==> n.0 == "amp_one_day"@,
{
}

/// Result of a notification check: the notifications to show (those the settings
/// allow), and their number.
pub open spec fn check_result(
    transitions: Seq<(StoredAddress, Option<TimeBucket>, TimeBucket)>,
    settings: AppSettings,
    r: (usize, Vec<DormantNotification>),
) -> bool {
    &&& r.0 == r.1@.len()
    &&& notices_by(transitions, |a: StoredAddress, b: TimeBucket| foreground_notice(a, b, settings), r.1@)
}

fn foreground_notification(a: &StoredAddress, bucket: TimeBucket, settings: &AppSettings) -> (r: Option<
    DormantNotification,
>)
    ensures
        match foreground_notice(*a, bucket, *settings) {
            Some((c, t, b)) => r matches Some(n) && is_notification(n, *a, c, t, b),
            None => r is None,
        },
{
    match bucket {
        TimeBucket::Within1Day => notify_one_day(a, settings),
        TimeBucket::Within6Hours => notify_six_hours(a, settings),
        TimeBucket::Now => notify_active(a, settings),
        _ => None,
    }
}

/// Detects the transitions of `addresses` at `now` (recording them in `tracker`)
/// and returns the notifications to show and how many there are.
pub fn check_and_send_notifications_standalone(
    tracker: &mut PanelState,
    addresses: &Vec<StoredAddress>,
    settings: &AppSettings,
    now: i64,
) -> (r: (usize, Vec<DormantNotification>))
    ensures
        final(tracker)@ == state_after(old(tracker)@, addresses@, now as int),
        check_result(transitions_of(old(tracker)@, addresses@, now as int), *settings, r),
{
    let transitions = detect_transitions_at(tracker, addresses, now);
    let ghost ts = transitions@;
    let mut out: Vec<DormantNotification> = Vec::new();
    let mut i: usize = 0;
    while i < transitions.len()
        invariant
            ts == transitions@,
            i <= ts.len(),
            notices_by(
                ts.take(i as int),
                |a: StoredAddress, b: TimeBucket| foreground_notice(a, b, *settings),
                out@,
            ),
        decreases ts.len() - i,
    {
        let ghost before = out@;
        proof {
            assert(ts.take(i + 1).drop_last() =~= ts.take(i as int));
            assert(ts.take(i + 1).last() == ts[i as int]);
        }
        let t = &transitions[i];
        match foreground_notification(&t.0, t.2, settings) {
            Some(n) => {
                out.push(n);
                proof {
                    assert(out@.drop_last() =~= before);
                }
            },
            None => {},
        }
        i = i + 1;
    }
    proof {
        assert(ts.take(ts.len() as int) =~= ts);
    }
    let count = out.len();
    (count, out)
}

impl LifecycleManager {
    #[verifier::type_invariant]
    closed spec fn inv(self) -> bool {
        consistent(self.state())
    }

    /// The manager's state is one it can be in.
    pub fn check_consistent(&self)
        ensures
            consistent(self.state()),
    {
        proof {
            use_type_invariant(self);
        }
    }

    /// The abstract state of the manager.
    pub closed spec fn state(&self) -> LifecycleState {
        LifecycleState {
            last_daily_run: self.last_daily_run,
            running: self.running,
            notifications_initialized: self.notifications_initialized,
        }
    }

    /// The buckets that the manager's transition tracker holds.
    pub closed spec fn tracker_state(&self) -> Map<usize, TimeBucket> {
        self.tracker@
    }

    /// A stopped manager that never ran, with an empty tracker.
    pub fn new() -> (r: LifecycleManager)
        ensures
            r.state() == (LifecycleState {
                last_daily_run: None,
                running: false,
                notifications_initialized: false,
            }),
            r.tracker_state() == Map::<usize, TimeBucket>::empty(),
    {
        LifecycleManager {
            last_daily_run: None,
            running: false,
            notifications_initialized: false,
            tracker: PanelState::new(),
        }
    }

    /// Starts the manager on the local date `today`; returns the actions to
    /// perform, in order.
    pub fn start_on(&mut self, today: (i32, u32, u32)) -> (r: Vec<LifecycleAction>)
        ensures
            (final(self).state(), r@) == start_step(old(self).state(), today),
            final(self).tracker_state() == old(self).tracker_state(),
    {
        proof {
            use_type_invariant(&*self);
        }
        let mut actions: Vec<LifecycleAction> = Vec::new();
        if self.running {
            return actions;
        }
        if !self.notifications_initialized {
            actions.push(LifecycleAction::InitializeNotifications);
            self.notifications_initialized = true;
        }
        self.running = true;
        actions.push(LifecycleAction::RunDailyTasks);
        actions.push(LifecycleAction::CheckNotifications);
        self.last_daily_run = Some(today);
        proof {
            let init: Seq<LifecycleAction> = if old(self).notifications_initialized {
                Seq::empty()
            } else {
                seq![LifecycleAction::InitializeNotifications]
            };
            assert(actions@ =~= init + seq![LifecycleAction::RunDailyTasks, LifecycleAction::CheckNotifications]);
        }
        actions
    }

    /// Starts the manager on the current local date.
    pub fn start(&mut self) -> (r: Vec<LifecycleAction>)
        ensures
            exists|today: (i32, u32, u32)| (final(self).state(), r@) == start_step(old(self).state(), today),
            final(self).tracker_state() == old(self).tracker_state(),
    {
        let today = local_date();
        self.start_on(today)
    }

    /// Stops the manager; returns the actions to perform.
    pub fn shutdown(&mut self) -> (r: Vec<LifecycleAction>)
        ensures
            (final(self).state(), r@) == shutdown_step(old(self).state()),
            final(self).tracker_state() == old(self).tracker_state(),
    {
        proof {
            use_type_invariant(&*self);
        }
        let mut actions: Vec<LifecycleAction> = Vec::new();
        if !self.running {
            return actions;
        }
        self.running = false;
        actions.push(LifecycleAction::SaveAddresses);
        proof {
            assert(actions@ =~= seq![LifecycleAction::SaveAddresses]);
        }
        actions
    }

    /// Whether the daily tasks are due on the local date `today` (never run, or
    /// last run on another day); when they are, `today` becomes the day of the last
    /// run and the caller runs them.
    pub fn check_and_run_daily_tasks_on(&mut self, today: (i32, u32, u32)) -> (r: bool)
        ensures
            (final(self).state(), r) == daily_step(old(self).state(), today),
            final(self).tracker_state() == old(self).tracker_state(),
    {
        proof {
            use_type_invariant(&*self);
        }
        let should_run = match self.last_daily_run {
            None => true,
            Some(last) => last.0 != today.0 || last.1 != today.1 || last.2 != today.2,
        };
        if should_run {
            self.last_daily_run = Some(today);
        }
        should_run
    }

    /// `check_and_run_daily_tasks_on` with the current local date.
    pub fn check_and_run_daily_tasks(&mut self) -> (r: bool)
        ensures
            exists|today: (i32, u32, u32)| (final(self).state(), r) == daily_step(old(self).state(), today),
            final(self).tracker_state() == old(self).tracker_state(),
    {
        let today = local_date();
        self.check_and_run_daily_tasks_on(today)
    }

    /// Whether the manager runs.
    pub fn is_running(&self) -> (r: bool)
        ensures
            r == self.state().running,
    {
        self.running
    }

    /// Whether the notification system was set up.
    pub fn are_notifications_initialized(&self) -> (r: bool)
        ensures
            r == self.state().notifications_initialized,
    {
        self.notifications_initialized
    }

    /// Replaces the transition tracker, as loaded from storage.
    pub fn replace_tracker(&mut self, tracker: PanelState)
        ensures
            final(self).state() == old(self).state(),
            final(self).tracker_state() == tracker@,
    {
        proof {
            use_type_invariant(&*self);
        }
        self.tracker = tracker;
    }

    /// The transition tracker, to save it.
    pub fn tracker(&self) -> (r: &PanelState)
        ensures
            r@ == self.tracker_state(),
    {
        &self.tracker
    }

    /// Checks `addresses` for transitions at `now` with the manager's tracker and
    /// returns the notifications to show and how many there are.
    pub fn check_and_send_notifications_at(
        &mut self,
        addresses: &Vec<StoredAddress>,
        settings: &AppSettings,
        now: i64,
    ) -> (r: (usize, Vec<DormantNotification>))
        ensures
            final(self).state() == old(self).state(),
            final(self).tracker_state() == state_after(old(self).tracker_state(), addresses@, now as int),
            check_result(transitions_of(old(self).tracker_state(), addresses@, now as int), *settings, r),
    {
        proof {
            use_type_invariant(&*self);
        }
        let mut tracker = PanelState::new();
        std::mem::swap(&mut tracker, &mut self.tracker);
        let r = check_and_send_notifications_standalone(&mut tracker, addresses, settings, now);
        self.tracker = tracker;
        r
    }
}

/// What starting asks for: a stopped manager first sets up notifications (only the
/// first time), then runs the daily tasks and checks for notifications, in that
/// order, and records today as the day of the daily tasks; a running manager asks
/// for nothing. Shutting down a running manager saves the addresses. The daily
/// tasks run on a day exactly when they have not yet run that day.
pub proof fn lemma_lifecycle_actions(s: LifecycleState, today: (i32, u32, u32))
    ensures
        !s.running && !s.notifications_initialized ==> start_step(s, today).1 == seq![
            LifecycleAction::InitializeNotifications,
            LifecycleAction::RunDailyTasks,
            LifecycleAction::CheckNotifications,
        ],
        !s.running && s.notifications_initialized ==> start_step(s, today).1 == seq![
            LifecycleAction::RunDailyTasks,
            LifecycleAction::CheckNotifications,
        ],
        !s.running ==> start_step(s, today).0.last_daily_run == Some(today),
        s.running ==> start_step(s, today).1.len() == 0 && start_step(s, today).0 == s,
        s.running ==> shutdown_step(s).1 == seq![LifecycleAction::SaveAddresses],
        !s.running ==> shutdown_step(s).1.len() == 0,
        daily_step(s, today).1 <==> s.last_daily_run != Some(today),
        daily_step(s, today).0.running == s.running,
        daily_step(s, today).0.notifications_initialized == s.notifications_initialized,
{
    assert(Seq::<LifecycleAction>::empty() + seq![LifecycleAction::RunDailyTasks, LifecycleAction::CheckNotifications]
        =~= seq![LifecycleAction::RunDailyTasks, LifecycleAction::CheckNotifications]);
    assert(seq![LifecycleAction::InitializeNotifications] + seq![
        LifecycleAction::RunDailyTasks,
        LifecycleAction::CheckNotifications,
    ] =~= seq![
        LifecycleAction::InitializeNotifications,
        LifecycleAction::RunDailyTasks,
        LifecycleAction::CheckNotifications,
    ]);
}

/// Starting a running manager does nothing; starting a stopped one leaves it
/// running with the notification system set up.
pub proof fn lemma_start_idempotent(s: LifecycleState, today: (i32, u32, u32), later: (i32, u32, u32))
    requires
        consistent(s),
    ensures
        start_step(s, today).0.running,
        start_step(s, today).0.notifications_initialized,
        start_step(start_step(s, today).0, later) == (start_step(s, today).0, Seq::<LifecycleAction>::empty()),
{
}

/// After shutting down, the manager is stopped, and shutting down again does
/// nothing; a running manager saves the addresses when it stops.
pub proof fn lemma_shutdown_stops(s: LifecycleState)
    ensures
        !shutdown_step(s).0.running,
        shutdown_step(shutdown_step(s).0) == (shutdown_step(s).0, Seq::<LifecycleAction>::empty()),
        s.running ==> shutdown_step(s).1 == seq![LifecycleAction::SaveAddresses],
{
}

/// The daily tasks run at most once per local day: right after a daily check on a
/// day, another check on the same day does not run them.
pub proof fn lemma_daily_once_per_day(s: LifecycleState, today: (i32, u32, u32))
    ensures
        daily_step(s, today).0.last_daily_run == Some(today),
        !daily_step(daily_step(s, today).0, today).1,
        start_step(s, today).0.running && !s.running ==> !daily_step(start_step(s, today).0, today).1,
{
}

} // verus!
