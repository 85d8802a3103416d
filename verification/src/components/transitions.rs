//! Tracking of the bucket last seen for each address, to notify when an address
//! moves to a more urgent bucket.
use vstd::prelude::*;
use crate::calendar::{civil_date, date_of_epoch_day, day_number_of, day_of, lemma_civil_date, utc_now_seconds};
use crate::structs::NotificationStateEntry;
use crate::swedish_time::{instant_in_range, local_of, swedish_local_of};
use crate::components::countdown::{bucket_at, bucket_for_at, TimeBucket};
use crate::structs::{parse_tid, restriction_window, DB};
use crate::text::{decimal, join_path, joined_path, str_eq, u64_to_string};
use crate::ui::StoredAddress;
use std::collections::HashMap;
use vstd::std_specs::hash::spec_hash_map_iter;
use vstd::std_specs::iter::IteratorSpec;

verus! {

/// Map of an association list; later entries win.
pub open spec fn map_of(s: Seq<(usize, TimeBucket)>) -> Map<usize, TimeBucket>
    decreases s.len(),
{
    if s.len() == 0 {
        Map::empty()
    } else {
        map_of(s.drop_last()).insert(s.last().0, s.last().1)
    }
}

/// No key occurs twice.
pub open spec fn keys_unique(s: Seq<(usize, TimeBucket)>) -> bool {
    forall|i: int, j: int| 0 <= i < j < s.len() ==> s[i].0 != s[j].0
}

proof fn lemma_map_of_keys(s: Seq<(usize, TimeBucket)>, k: usize)
    ensures
        map_of(s).contains_key(k) <==> exists|i: int| 0 <= i < s.len() && #[trigger] s[i].0 == k,
    decreases s.len(),
{
    if s.len() > 0 {
        lemma_map_of_keys(s.drop_last(), k);
        if map_of(s.drop_last()).contains_key(k) {
            let i = choose|i: int| 0 <= i < s.drop_last().len() && #[trigger] s.drop_last()[i].0 == k;
            assert(s[i].0 == k);
        }
        if exists|i: int| 0 <= i < s.len() && #[trigger] s[i].0 == k {
            let i = choose|i: int| 0 <= i < s.len() && #[trigger] s[i].0 == k;
            if i < s.len() - 1 {
                assert(s.drop_last()[i].0 == k);
            }
        }
    }
}

proof fn lemma_map_of_value(s: Seq<(usize, TimeBucket)>, i: int)
    requires
        keys_unique(s),
        0 <= i < s.len(),
    ensures
        map_of(s).contains_key(s[i].0),
        map_of(s)[s[i].0] == s[i].1,
    decreases s.len(),
{
    if i < s.len() - 1 {
        assert(s.drop_last()[i] == s[i]);
        lemma_map_of_value(s.drop_last(), i);
    }
}

/// Last bucket seen for each tracked address.
pub struct PanelState {
    map: HashMap<usize, TimeBucket>,
}

impl View for PanelState {
    type V = Map<usize, TimeBucket>;

    closed spec fn view(&self) -> Map<usize, TimeBucket> {
        self.map@
    }
}

impl PanelState {
    /// An empty tracker.
    pub fn new() -> (r: PanelState)
        ensures
            r@ == Map::<usize, TimeBucket>::empty(),
    {
        PanelState { map: HashMap::new() }
    }

    /// The bucket last seen for `id`.
    pub fn get(&self, id: usize) -> (r: Option<TimeBucket>)
        ensures
            r == (if self@.contains_key(id) { Some(self@[id]) } else { None::<TimeBucket> }),
    {
        broadcast use vstd::std_specs::hash::group_hash_axioms;

        match self.map.get(&id) {
            Some(b) => Some(*b),
            None => None,
        }
    }

    /// Records `bucket` as last seen for `id`.
    pub fn insert(&mut self, id: usize, bucket: TimeBucket)
        ensures
            final(self)@ == old(self)@.insert(id, bucket),
    {
        broadcast use vstd::std_specs::hash::group_hash_axioms;

        self.map.insert(id, bucket);
    }

    /// Forgets `id`.
    pub fn remove(&mut self, id: usize)
        ensures
            final(self)@ == old(self)@.remove(id),
    {
        broadcast use vstd::std_specs::hash::group_hash_axioms;

        self.map.remove(&id);
    }

    /// Number of tracked addresses.
    pub fn len(&self) -> (r: usize)
        ensures
            self@.dom().finite(),
            r == self@.dom().len(),
    {
        broadcast use vstd::std_specs::hash::group_hash_axioms;

        self.map.len()
    }

    /// Forgets every address.
    pub fn clear(&mut self)
        ensures
            final(self)@ == Map::<usize, TimeBucket>::empty(),
    {
        self.map.clear();
    }
}

/// Rank of a bucket by urgency; lower is more urgent.
pub open spec fn urgency(b: TimeBucket) -> int {
    match b {
        TimeBucket::Now => 0,
        TimeBucket::Within6Hours => 1,
        TimeBucket::Within1Day => 2,
        TimeBucket::Within1Month => 3,
        TimeBucket::MoreThan1Month => 4,
        TimeBucket::Invalid => 5,
    }
}

/// A notification is owed when an address reaches one of the buckets within a day
/// (within a day, within six hours, in force) the first time it is seen, or from a
/// less urgent bucket other than `Invalid`.
pub open spec fn should_notify(prev: Option<TimeBucket>, new: TimeBucket) -> bool {
    &&& urgency(new) <= 2
    &&& match prev {
        None => true,
        Some(p) => p != TimeBucket::Invalid && urgency(new) < urgency(p),
    }
}

/// The bucket recorded for `id`, if any.
pub open spec fn prev_bucket(state: Map<usize, TimeBucket>, id: usize) -> Option<TimeBucket> {
    if state.contains_key(id) { Some(state[id]) } else { None }
}

/// The notification rule, case by case: reaching `Now` notifies unless the address
/// was already `Now` or was recorded `Invalid`; reaching `Within6Hours` notifies on
/// first sight or from `Within1Day`, `Within1Month` or `MoreThan1Month`; reaching
/// `Within1Day` notifies on first sight or from `Within1Month` or
/// `MoreThan1Month`; no other bucket ever notifies.
pub proof fn lemma_notification_rule(prev: Option<TimeBucket>, new: TimeBucket)
    ensures
        should_notify(prev, new) <==> {
            ||| new == TimeBucket::Now && prev != Some(TimeBucket::Now) && prev != Some(TimeBucket::Invalid)
            ||| new == TimeBucket::Within6Hours && (prev is None || prev == Some(TimeBucket::Within1Day) || prev
                == Some(TimeBucket::Within1Month) || prev == Some(TimeBucket::MoreThan1Month))
            ||| new == TimeBucket::Within1Day && (prev is None || prev == Some(TimeBucket::Within1Month) || prev
                == Some(TimeBucket::MoreThan1Month))
        },
{
}

/// The tracker after looking at one address: an address without a restriction is
/// forgotten, another one is recorded with its bucket at `now`.
pub open spec fn after_step(state: Map<usize, TimeBucket>, a: StoredAddress, now: int) -> Map<usize, TimeBucket> {
    match a.matched_entry {
        None => state.remove(a.id),
        Some(db) => state.insert(a.id, bucket_at(db, now)),
    }
}

/// The notification owed for one address, given the tracker before it.
pub open spec fn step_transition(state: Map<usize, TimeBucket>, a: StoredAddress, now: int) -> Option<
    (StoredAddress, Option<TimeBucket>, TimeBucket),
> {
    match a.matched_entry {
        None => None,
        Some(db) => {
            let nb = bucket_at(db, now);
            let pb = prev_bucket(state, a.id);
            if should_notify(pb, nb) { Some((a, pb, nb)) } else { None }
        },
    }
}

/// The tracker after looking at `addrs` in order, one after the other.
pub open spec fn tracked_after(state: Map<usize, TimeBucket>, addrs: Seq<StoredAddress>, now: int) -> Map<
    usize,
    TimeBucket,
>
    decreases addrs.len(),
{
    if addrs.len() == 0 {
        state
    } else {
        after_step(tracked_after(state, addrs.drop_last(), now), addrs.last(), now)
    }
}

/// The tracker after a check of `addrs`: a check with no address at all (none is
/// followed) forgets every address; otherwise the addresses are looked at in order,
/// and the ids not among them keep their bucket.
pub open spec fn state_after(state: Map<usize, TimeBucket>, addrs: Seq<StoredAddress>, now: int) -> Map<
    usize,
    TimeBucket,
> {
    if addrs.len() == 0 {
        Map::empty()
    } else {
        tracked_after(state, addrs, now)
    }
}

/// The notifications owed while looking at `addrs` in order.
pub open spec fn transitions_of(state: Map<usize, TimeBucket>, addrs: Seq<StoredAddress>, now: int) -> Seq<
    (StoredAddress, Option<TimeBucket>, TimeBucket),
>
    decreases addrs.len(),
{
    if addrs.len() == 0 {
        Seq::empty()
    } else {
        let earlier = transitions_of(state, addrs.drop_last(), now);
        match step_transition(tracked_after(state, addrs.drop_last(), now), addrs.last(), now) {
            Some(t) => earlier.push(t),
            None => earlier,
        }
    }
}

/// Compares the bucket of each address at `now` with the one recorded for it,
/// returns the moves into a more urgent bucket that call for a notification
/// (the address, the bucket before, if any, and the new bucket), and records the
/// new buckets. Addresses without a restriction are forgotten, and a check of an
/// empty list forgets every address.
pub fn detect_transitions_at(state: &mut PanelState, addresses: &Vec<StoredAddress>, now: i64) -> (r: Vec<
    (StoredAddress, Option<TimeBucket>, TimeBucket),
>)
    ensures
        final(state)@ == state_after(old(state)@, addresses@, now as int),
        r@ == transitions_of(old(state)@, addresses@, now as int),
{
    let ghost start = state@;
    let mut transitions: Vec<(StoredAddress, Option<TimeBucket>, TimeBucket)> = Vec::new();
    if addresses.len() == 0 {
        state.clear();
        return transitions;
    }
    let mut i: usize = 0;
    while i < addresses.len()
        invariant
            i <= addresses@.len(),
            state@ == tracked_after(start, addresses@.take(i as int), now as int),
            transitions@ == transitions_of(start, addresses@.take(i as int), now as int),
        decreases addresses@.len() - i,
    {
        let ghost before = state@;
        let addr = &addresses[i];
        proof {
            assert(addresses@.take(i + 1).drop_last() =~= addresses@.take(i as int));
            assert(addresses@.take(i + 1).last() == *addr);
        }
        match &addr.matched_entry {
            None => {
                state.remove(addr.id);
            },
            Some(entry) => {
                let new_bucket = bucket_for_at(entry, now);
                let previous = state.get(addr.id);
                let notify = match previous {
                    None => match new_bucket {
                        TimeBucket::Within1Day | TimeBucket::Within6Hours | TimeBucket::Now => true,
                        _ => false,
                    },
                    Some(TimeBucket::MoreThan1Month) | Some(TimeBucket::Within1Month) => match new_bucket {
                        TimeBucket::Within1Day | TimeBucket::Within6Hours | TimeBucket::Now => true,
                        _ => false,
                    },
                    Some(TimeBucket::Within1Day) => match new_bucket {
                        TimeBucket::Within6Hours | TimeBucket::Now => true,
                        _ => false,
                    },
                    Some(TimeBucket::Within6Hours) => match new_bucket {
                        TimeBucket::Now => true,
                        _ => false,
                    },
                    _ => false,
                };
                assert(notify == should_notify(prev_bucket(before, addr.id), new_bucket));
                if notify {
                    transitions.push((addr.clone(), previous, new_bucket));
                }
                state.insert(addr.id, new_bucket);
            },
        }
        i = i + 1;
    }
    proof {
        assert(addresses@.take(addresses@.len() as int) =~= addresses@);
    }
    transitions
}

/// `detect_transitions_at` at the current instant.
pub fn detect_transitions(state: &mut PanelState, addresses: &Vec<StoredAddress>) -> (r: Vec<
    (StoredAddress, Option<TimeBucket>, TimeBucket),
>)
    ensures
        exists|now: i64|
            final(state)@ == state_after(old(state)@, addresses@, now as int) && r@ == transitions_of(
                old(state)@,
                addresses@,
                now as int,
            ),
{
    let now = utc_now_seconds();
    detect_transitions_at(state, addresses, now)
}

/// Number of addresses that the tracker follows.
pub fn tracked_address_count(state: &PanelState) -> (r: usize)
    ensures
        state@.dom().finite(),
        r == state@.dom().len(),
{
    state.len()
}

/// Forgets every tracked address, so that the next detection treats each as new.
pub fn clear_panel_state(state: &mut PanelState)
    ensures
        final(state)@ == Map::<usize, TimeBucket>::empty(),
{
    state.clear();
}

/// No two addresses share an id.
pub open spec fn ids_unique(addrs: Seq<StoredAddress>) -> bool {
    forall|i: int, j: int| 0 <= i < j < addrs.len() ==> addrs[i].id != addrs[j].id
}

/// What the tracker records for an address at `now`: the bucket of its
/// restriction, or nothing when it has none.
pub open spec fn recorded_bucket(a: StoredAddress, now: int) -> Option<TimeBucket> {
    match a.matched_entry {
        None => None,
        Some(db) => Some(bucket_at(db, now)),
    }
}

proof fn lemma_tracked_records(state: Map<usize, TimeBucket>, addrs: Seq<StoredAddress>, now: int)
    requires
        ids_unique(addrs),
    ensures
        forall|i: int|
            0 <= i < addrs.len() ==> prev_bucket(tracked_after(state, addrs, now), #[trigger] addrs[i].id)
                == recorded_bucket(addrs[i], now),
        forall|id: usize|
            (forall|i: int| 0 <= i < addrs.len() ==> #[trigger] addrs[i].id != id) ==> prev_bucket(
                tracked_after(state, addrs, now),
                id,
            ) == prev_bucket(state, id),
    decreases addrs.len(),
{
    if addrs.len() > 0 {
        let init = addrs.drop_last();
        assert(ids_unique(init));
        lemma_tracked_records(state, init, now);
        assert forall|i: int| 0 <= i < addrs.len() implies prev_bucket(
            tracked_after(state, addrs, now),
            #[trigger] addrs[i].id,
        ) == recorded_bucket(addrs[i], now) by {
            if i < addrs.len() - 1 {
                assert(init[i] == addrs[i]);
            }
        }
        assert forall|id: usize|
            (forall|i: int| 0 <= i < addrs.len() ==> #[trigger] addrs[i].id != id) implies prev_bucket(
                tracked_after(state, addrs, now),
                id,
            ) == prev_bucket(state, id) by {
            assert forall|i: int| 0 <= i < init.len() implies #[trigger] init[i].id != id by {
                assert(init[i] == addrs[i]);
            }
            assert(addrs[addrs.len() - 1].id != id);
        }
    }
}

/// After a check of addresses with distinct ids, the tracker records for each
/// address its bucket at that instant (nothing for one without a restriction) and,
/// when the list is not empty, keeps what it had for every other id; a check of
/// an empty list leaves it empty.
pub proof fn lemma_detection_records(state: Map<usize, TimeBucket>, addrs: Seq<StoredAddress>, now: int)
    requires
        ids_unique(addrs),
    ensures
        forall|i: int|
            0 <= i < addrs.len() ==> prev_bucket(state_after(state, addrs, now), #[trigger] addrs[i].id)
                == recorded_bucket(addrs[i], now),
        forall|id: usize|
            addrs.len() > 0 && (forall|i: int| 0 <= i < addrs.len() ==> #[trigger] addrs[i].id != id)
                ==> prev_bucket(state_after(state, addrs, now), id) == prev_bucket(state, id),
        addrs.len() == 0 ==> state_after(state, addrs, now) == Map::<usize, TimeBucket>::empty(),
{
    lemma_tracked_records(state, addrs, now);
}

proof fn lemma_quiet_prefix(t: Map<usize, TimeBucket>, addrs: Seq<StoredAddress>, now: int, k: int)
    requires
        0 <= k <= addrs.len(),
        forall|i: int| 0 <= i < addrs.len() ==> prev_bucket(t, #[trigger] addrs[i].id) == recorded_bucket(
            addrs[i],
            now,
        ),
    ensures
        tracked_after(t, addrs.take(k), now) == t,
        transitions_of(t, addrs.take(k), now) == Seq::<(StoredAddress, Option<TimeBucket>, TimeBucket)>::empty(),
    decreases k,
{
    if k > 0 {
        lemma_quiet_prefix(t, addrs, now, k - 1);
        let p = addrs.take(k);
        assert(p.drop_last() =~= addrs.take(k - 1));
        let a = addrs[k - 1];
        assert(p.last() == a);
        assert(prev_bucket(t, a.id) == recorded_bucket(a, now));
        match a.matched_entry {
            None => {
                assert(t.remove(a.id) =~= t);
            },
            Some(db) => {
                assert(t.insert(a.id, bucket_at(db, now)) =~= t);
            },
        }
    }
}

/// Looking again, at the same instant, at the addresses just looked at (with
/// distinct ids) owes no notification and leaves the tracker as it was.
pub proof fn lemma_detection_idempotent(state: Map<usize, TimeBucket>, addrs: Seq<StoredAddress>, now: int)
    requires
        ids_unique(addrs),
    ensures
        transitions_of(state_after(state, addrs, now), addrs, now).len() == 0,
        state_after(state_after(state, addrs, now), addrs, now) == state_after(state, addrs, now),
{
    if addrs.len() > 0 {
        lemma_tracked_records(state, addrs, now);
        let t = tracked_after(state, addrs, now);
        lemma_quiet_prefix(t, addrs, now, addrs.len() as int);
        assert(addrs.take(addrs.len() as int) =~= addrs);
    }
}

/// Checking again later, while no address has changed bucket, owes no notification
/// (addresses with distinct ids).
pub proof fn lemma_no_repeat_while_unchanged(
    state: Map<usize, TimeBucket>,
    addrs: Seq<StoredAddress>,
    now: int,
    later: int,
)
    requires
        ids_unique(addrs),
        forall|i: int| 0 <= i < addrs.len() ==> recorded_bucket(#[trigger] addrs[i], later) == recorded_bucket(
            addrs[i],
            now,
        ),
    ensures
        transitions_of(state_after(state, addrs, now), addrs, later).len() == 0,
{
    if addrs.len() > 0 {
        lemma_tracked_records(state, addrs, now);
        let t = tracked_after(state, addrs, now);
        assert forall|i: int| 0 <= i < addrs.len() implies prev_bucket(t, #[trigger] addrs[i].id)
            == recorded_bucket(addrs[i], later) by {
            assert(recorded_bucket(addrs[i], later) == recorded_bucket(addrs[i], now));
        }
        lemma_quiet_prefix(t, addrs, later, addrs.len() as int);
        assert(addrs.take(addrs.len() as int) =~= addrs);
    }
}

/// The notifications owed for `addrs`, each judged against the tracker `state`
/// as it was before the check.
pub open spec fn owed_against(state: Map<usize, TimeBucket>, addrs: Seq<StoredAddress>, now: int) -> Seq<
    (StoredAddress, Option<TimeBucket>, TimeBucket),
>
    decreases addrs.len(),
{
    if addrs.len() == 0 {
        Seq::empty()
    } else {
        let earlier = owed_against(state, addrs.drop_last(), now);
        match step_transition(state, addrs.last(), now) {
            Some(t) => earlier.push(t),
            None => earlier,
        }
    }
}

/// For addresses with distinct ids, the notifications of a check are, in input
/// order, those addresses with a restriction whose move from the bucket recorded
/// before the check owes one.
pub proof fn lemma_transitions_filter(state: Map<usize, TimeBucket>, addrs: Seq<StoredAddress>, now: int)
    requires
        ids_unique(addrs),
    ensures
        transitions_of(state, addrs, now) == owed_against(state, addrs, now),
    decreases addrs.len(),
{
    if addrs.len() > 0 {
        let init = addrs.drop_last();
        assert(ids_unique(init));
        lemma_transitions_filter(state, init, now);
        lemma_tracked_records(state, init, now);
        let a = addrs.last();
        assert forall|i: int| 0 <= i < init.len() implies #[trigger] init[i].id != a.id by {
            assert(init[i] == addrs[i]);
        }
        assert(prev_bucket(tracked_after(state, init, now), a.id) == prev_bucket(state, a.id));
    }
}

/// Every notification concerns one of the addresses looked at that has a
/// restriction, carries the bucket of that restriction at `now`, and is owed by
/// the move from the bucket it reports as previous.
pub proof fn lemma_transitions_sound(state: Map<usize, TimeBucket>, addrs: Seq<StoredAddress>, now: int)
    ensures
        forall|k: int|
            0 <= k < transitions_of(state, addrs, now).len() ==> {
                let t = #[trigger] transitions_of(state, addrs, now)[k];
                &&& addrs.contains(t.0)
                &&& t.0.matched_entry is Some
                &&& t.2 == bucket_at(t.0.matched_entry.unwrap(), now)
                &&& should_notify(t.1, t.2)
            },
    decreases addrs.len(),
{
    if addrs.len() > 0 {
        let init = addrs.drop_last();
        lemma_transitions_sound(state, init, now);
        let earlier = transitions_of(state, init, now);
        assert forall|k: int| 0 <= k < transitions_of(state, addrs, now).len() implies {
            let t = #[trigger] transitions_of(state, addrs, now)[k];
            &&& addrs.contains(t.0)
            &&& t.0.matched_entry is Some
            &&& t.2 == bucket_at(t.0.matched_entry.unwrap(), now)
            &&& should_notify(t.1, t.2)
        } by {
            if k < earlier.len() {
                let t = earlier[k];
                assert(transitions_of(state, addrs, now)[k] == t);
                let j = choose|j: int| 0 <= j < init.len() && init[j] == t.0;
                assert(addrs[j] == t.0);
            } else {
                assert(addrs[addrs.len() - 1] == addrs.last());
            }
        }
    }
}

/// An address with a restriction that the tracker has not seen, found within a
/// day of its restriction (or in it), is notified with no previous bucket.
pub proof fn lemma_first_sighting_notifies(state: Map<usize, TimeBucket>, a: StoredAddress, now: int)
    requires
        !state.contains_key(a.id),
        a.matched_entry is Some,
        urgency(bucket_at(a.matched_entry.unwrap(), now)) <= 2,
    ensures
        transitions_of(state, seq![a], now).len() == 1,
        transitions_of(state, seq![a], now)[0] == (a, None::<TimeBucket>, bucket_at(
            a.matched_entry.unwrap(),
            now,
        )),
{
    let s = seq![a];
    let e = Seq::<StoredAddress>::empty();
    assert(s.drop_last() =~= e);
    assert(s.last() == a);
    assert(tracked_after(state, e, now) == state);
    assert(transitions_of(state, e, now).len() == 0);
    assert(prev_bucket(state, a.id) is None);
}

/// Checking one address: it is notified, with the bucket recorded for it and its
/// bucket at `now`, exactly when it has a restriction and moves by the rule of
/// `lemma_notification_rule` (for example from `Within1Day` to `Now`); afterwards
/// the tracker holds its bucket at `now`, or forgets it when it has no restriction.
pub proof fn lemma_single_address_check(state: Map<usize, TimeBucket>, a: StoredAddress, now: int)
    ensures
        ({
            let prev = if state.contains_key(a.id) { Some(state[a.id]) } else { None::<TimeBucket> };
            match a.matched_entry {
                None => transitions_of(state, seq![a], now).len() == 0 && state_after(state, seq![a], now)
                    == state.remove(a.id),
                Some(db) => {
                    let new = bucket_at(db, now);
                    let owed = {
                        ||| new == TimeBucket::Now && prev != Some(TimeBucket::Now) && prev != Some(
                            TimeBucket::Invalid,
                        )
                        ||| new == TimeBucket::Within6Hours && (prev is None || prev == Some(TimeBucket::Within1Day)
                            || prev == Some(TimeBucket::Within1Month) || prev == Some(TimeBucket::MoreThan1Month))
                        ||| new == TimeBucket::Within1Day && (prev is None || prev == Some(TimeBucket::Within1Month)
                            || prev == Some(TimeBucket::MoreThan1Month))
                    };
                    &&& owed ==> transitions_of(state, seq![a], now) == seq![(a, prev, new)]
                    &&& !owed ==> transitions_of(state, seq![a], now).len() == 0
                    &&& state_after(state, seq![a], now) == state.insert(a.id, new)
                },
            }
        }),
{
    let s = seq![a];
    let e = Seq::<StoredAddress>::empty();
    assert(s.drop_last() =~= e);
    assert(s.last() == a);
    assert(tracked_after(state, e, now) == state);
    assert(transitions_of(state, e, now).len() == 0);
    if let Some(db) = a.matched_entry {
        lemma_notification_rule(prev_bucket(state, a.id), bucket_at(db, now));
    }
}

/// Name under which a bucket is persisted.
pub open spec fn bucket_name(b: TimeBucket) -> Seq<char> {
    match b {
        TimeBucket::Now => "Now"@,
        TimeBucket::Within6Hours => "Within6Hours"@,
        TimeBucket::Within1Day => "Within1Day"@,
        TimeBucket::Within1Month => "Within1Month"@,
        TimeBucket::MoreThan1Month => "MoreThan1Month"@,
        TimeBucket::Invalid => "Invalid"@,
    }
}

/// The bucket persisted under `s`; an unknown name reads as `Invalid`.
pub open spec fn bucket_of_name(s: Seq<char>) -> TimeBucket {
    if s == "Now"@ {
        TimeBucket::Now
    } else if s == "Within6Hours"@ {
        TimeBucket::Within6Hours
    } else if s == "Within1Day"@ {
        TimeBucket::Within1Day
    } else if s == "Within1Month"@ {
        TimeBucket::Within1Month
    } else if s == "MoreThan1Month"@ {
        TimeBucket::MoreThan1Month
    } else {
        TimeBucket::Invalid
    }
}

/// Reading back the name of a bucket gives the bucket.
pub proof fn lemma_bucket_name_roundtrip(b: TimeBucket)
    ensures
        bucket_of_name(bucket_name(b)) == b,
{
    reveal_strlit("Now");
    reveal_strlit("Within6Hours");
    reveal_strlit("Within1Day");
    reveal_strlit("Within1Month");
    reveal_strlit("MoreThan1Month");
    reveal_strlit("Invalid");
    assert("Now"@.len() == 3);
    assert("Within6Hours"@.len() == 12);
    assert("Within1Day"@.len() == 10);
    assert("Within1Month"@.len() == 12);
    assert("MoreThan1Month"@.len() == 14);
    assert("Invalid"@.len() == 7);
    assert("Within6Hours"@[6] != "Within1Month"@[6]);
}

/// Name under which a bucket is persisted.
pub fn bucket_to_string(bucket: &TimeBucket) -> (r: &'static str)
    ensures
        r@ == bucket_name(*bucket),
{
    match bucket {
        TimeBucket::Now => "Now",
        TimeBucket::Within6Hours => "Within6Hours",
        TimeBucket::Within1Day => "Within1Day",
        TimeBucket::Within1Month => "Within1Month",
        TimeBucket::MoreThan1Month => "MoreThan1Month",
        TimeBucket::Invalid => "Invalid",
    }
}

/// The bucket persisted under `s`; an unknown name reads as `Invalid`.
pub fn bucket_from_string(s: &str) -> (r: TimeBucket)
    ensures
        r == bucket_of_name(s@),
{
    if str_eq(s, "Now") {
        TimeBucket::Now
    } else if str_eq(s, "Within6Hours") {
        TimeBucket::Within6Hours
    } else if str_eq(s, "Within1Day") {
        TimeBucket::Within1Day
    } else if str_eq(s, "Within1Month") {
        TimeBucket::Within1Month
    } else if str_eq(s, "MoreThan1Month") {
        TimeBucket::MoreThan1Month
    } else {
        TimeBucket::Invalid
    }
}

/// Year and month of the Swedish calendar date at the instant `t`.
pub open spec fn swedish_year_month(t: int) -> (int, int) {
    let c = civil_date(day_of(local_of(t)));
    (c.0, c.1)
}

/// `r` is the year-month reading at `now`: present for an instant in the
/// calendar's range from year 0 on, and then `year * 100 + month`.
pub open spec fn year_month_reading(r: Option<u32>, now: int) -> bool {
    &&& instant_in_range(now) && swedish_year_month(now).0 >= 0 ==> r is Some
    &&& r matches Some(ym) ==> ym == swedish_year_month(now).0 * 100 + swedish_year_month(now).1
}

/// `year * 100 + month` of the Swedish date at the instant `now` (for example
/// 202602); nothing for an instant outside the calendar's range or before year 0.
pub fn current_year_month_at(now: i64) -> (r: Option<u32>)
    ensures
        year_month_reading(r, now as int),
{
    let local = match swedish_local_of(now) {
        Some(l) => l,
        None => return None,
    };
    let day = match day_number_of(local) {
        Some(d) => d,
        None => return None,
    };
    match date_of_epoch_day(day as i32) {
        Some((year, month, dom)) => {
            proof {
                lemma_civil_date(year as int, month as int, dom as int);
            }
            if year < 0 {
                None
            } else {
                Some((year as u32) * 100 + month)
            }
        },
        None => None,
    }
}

/// `current_year_month_at` at the current instant.
pub fn current_year_month() -> (r: Option<u32>)
    ensures
        exists|now: i64| year_month_reading(r, now as int),
{
    let now = utc_now_seconds();
    current_year_month_at(now)
}

/// The tracker that `entries` describe for the month `ym`: entries of other
/// months are left out, and a later entry for an id wins.
pub open spec fn state_of_entries(entries: Seq<NotificationStateEntry>, ym: u32) -> Map<usize, TimeBucket>
    decreases entries.len(),
{
    if entries.len() == 0 {
        Map::empty()
    } else {
        let m = state_of_entries(entries.drop_last(), ym);
        let e = entries.last();
        if e.year_month == ym {
            m.insert(e.address_id as usize, bucket_of_name(e.bucket@))
        } else {
            m
        }
    }
}

proof fn lemma_entries_describe(r: Seq<NotificationStateEntry>, e: Seq<(usize, TimeBucket)>, ym: u32)
    requires
        r.len() == e.len(),
        forall|k: int|
            0 <= k < r.len() ==> {
                &&& (#[trigger] r[k]).year_month == ym
                &&& r[k].address_id as usize == e[k].0
                &&& bucket_of_name(r[k].bucket@) == e[k].1
            },
    ensures
        state_of_entries(r, ym) == map_of(e),
    decreases r.len(),
{
    if r.len() > 0 {
        let r0 = r.drop_last();
        let e0 = e.drop_last();
        assert forall|k: int| 0 <= k < r0.len() implies {
            &&& (#[trigger] r0[k]).year_month == ym
            &&& r0[k].address_id as usize == e0[k].0
            &&& bucket_of_name(r0[k].bucket@) == e0[k].1
        } by {
            assert(r0[k] == r[k]);
        }
        lemma_entries_describe(r0, e0, ym);
        assert(r.last() == r[r.len() - 1]);
    }
}

impl PanelState {
    /// The records to persist for month `ym`, one per tracked address.
    pub fn to_entries(&self, ym: u32) -> (r: Vec<NotificationStateEntry>)
        ensures
            self@.dom().finite(),
            r.len() == self@.dom().len(),
            state_of_entries(r@, ym) == self@,
            forall|k: int| 0 <= k < r.len() ==> (#[trigger] r@[k]).year_month == ym,
    {
        broadcast use vstd::std_specs::hash::group_hash_axioms;

        let mut r: Vec<NotificationStateEntry> = Vec::new();
        let ghost pairs = spec_hash_map_iter(&self.map).remaining();
        for p in it: self.map.iter()
            invariant
                it.seq() == pairs,
                pairs == spec_hash_map_iter(&self.map).remaining(),
                r.len() == it.index(),
                forall|k: int|
                    0 <= k < it.index() ==> {
                        &&& (#[trigger] r@[k]).year_month == ym
                        &&& r@[k].address_id as usize == *pairs[k].0
                        &&& bucket_of_name(r@[k].bucket@) == *pairs[k].1
                    },
        {
            let (id, bucket) = p;
            let name = bucket_to_string(bucket);
            proof {
                lemma_bucket_name_roundtrip(*bucket);
            }
            r.push(NotificationStateEntry {
                address_id: *id as u64,
                bucket: name.to_string(),
                year_month: ym,
            });
        }
        proof {
            let m = self.map@;
            let e = Seq::new(pairs.len(), |k: int| (*pairs[k].0, *pairs[k].1));
            assert(pairs.len() == m.dom().len());
            lemma_entries_describe(r@, e, ym);
            assert(keys_unique(e)) by {
                assert forall|i: int, j: int| 0 <= i < j < e.len() implies e[i].0 != e[j].0 by {
                    if e[i].0 == e[j].0 {
                        assert(m.contains_key(*pairs[i].0) && m[*pairs[i].0] == *pairs[i].1);
                        assert(m.contains_key(*pairs[j].0) && m[*pairs[j].0] == *pairs[j].1);
                        assert(pairs[i] == pairs[j]);
                    }
                }
            }
            assert forall|k: usize| #![auto] map_of(e).contains_key(k) == m.contains_key(k) by {
                lemma_map_of_keys(e, k);
                if m.contains_key(k) {
                    assert(pairs.contains((&k, &m[k])));
                    let j = choose|j: int| 0 <= j < pairs.len() && pairs[j] == (&k, &m[k]);
                    assert(e[j].0 == k);
                }
                if map_of(e).contains_key(k) {
                    let j = choose|j: int| 0 <= j < e.len() && #[trigger] e[j].0 == k;
                    assert(m.contains_key(*pairs[j].0));
                }
            }
            assert forall|k: usize| #![auto] map_of(e).contains_key(k) implies map_of(e)[k] == m[k] by {
                lemma_map_of_keys(e, k);
                let j = choose|j: int| 0 <= j < e.len() && #[trigger] e[j].0 == k;
                lemma_map_of_value(e, j);
                assert(m[*pairs[j].0] == *pairs[j].1);
            }
            assert(map_of(e) =~= m);
        }
        r
    }

    /// The tracker that persisted records describe for month `ym`; records of
    /// other months are left out.
    pub fn from_entries(entries: &Vec<NotificationStateEntry>, ym: u32) -> (r: PanelState)
        ensures
            r@ == state_of_entries(entries@, ym),
    {
        let mut state = PanelState::new();
        let mut i: usize = 0;
        while i < entries.len()
            invariant
                i <= entries@.len(),
                state@ == state_of_entries(entries@.take(i as int), ym),
            decreases entries@.len() - i,
        {
            proof {
                assert(entries@.take(i + 1).drop_last() =~= entries@.take(i as int));
                assert(entries@.take(i + 1).last() == entries@[i as int]);
            }
            let e = &entries[i];
            if e.year_month == ym {
                let b = bucket_from_string(e.bucket.as_str());
                state.insert(e.address_id as usize, b);
            }
            i = i + 1;
        }
        proof {
            assert(entries@.take(entries@.len() as int) =~= entries@);
        }
        state
    }
}

/// A followed address on "Test Street" numbered `id`, postal code 22100, with
/// the restriction of day `day` of January 2024 during `time` (`HHMM-HHMM`), and
/// its bucket at `now`; nothing when that restriction cannot be placed.
pub fn create_test_address_with_bucket_at(id: usize, day: u8, time: &str, now: i64) -> (r: Option<
    (StoredAddress, TimeBucket),
>)
    ensures
        r is Some <==> restriction_window(2024, 1, day as int, time@) is Some,
        r matches Some(p) ==> {
            &&& p.0.id == id
            &&& p.0.street@ == "Test Street"@
            &&& p.0.street_number@ == decimal(id as nat)
            &&& p.0.postal_code@ == "22100"@
            &&& p.0.valid && p.0.active
            &&& p.0.matched_entry matches Some(db) && {
                &&& db.wf()
                &&& db.year == 2024 && db.month == 1 && db.dag == day
                &&& db.postnummer matches Some(pn) && pn@ == "22100"@
                &&& db.adress@ == "Test Street "@ + decimal(id as nat)
                &&& db.gata matches Some(g) && g@ == "Test Street"@
                &&& db.gatunummer matches Some(n) && n@ == decimal(id as nat)
                &&& db.info is None && db.taxa is None && db.antal_platser is None
                &&& db.typ_av_parkering is None
                &&& parse_tid(time@) == Some((db.start_minute as int, db.end_minute as int))
                &&& p.1 == bucket_at(db, now as int)
            }
        },
{
    let number = u64_to_string(id as u64);
    let mut adress = String::from_str("Test Street ");
    adress.append(number.as_str());
    let db = match DB::from_dag_tid(
        Some(String::from_str("22100")),
        adress,
        Some(String::from_str("Test Street")),
        Some(number.clone()),
        None,
        day,
        time,
        None,
        None,
        None,
        2024,
        1,
    ) {
        Some(db) => db,
        None => return None,
    };
    let bucket = bucket_for_at(&db, now);
    let addr = StoredAddress {
        id,
        street: String::from_str("Test Street"),
        street_number: number,
        postal_code: String::from_str("22100"),
        valid: true,
        active: true,
        matched_entry: Some(db),
    };
    Some((addr, bucket))
}

/// `create_test_address_with_bucket_at` at the current instant.
pub fn create_test_address_with_bucket(id: usize, day: u8, time: &str) -> (r: Option<(StoredAddress, TimeBucket)>)
    ensures
        r is Some <==> restriction_window(2024, 1, day as int, time@) is Some,
        r matches Some(p) ==> {
            &&& p.0.id == id
            &&& p.0.matched_entry matches Some(db) && {
                &&& db.dag == day
                &&& parse_tid(time@) == Some((db.start_minute as int, db.end_minute as int))
                &&& exists|now: i64| p.1 == bucket_at(db, now as int)
            }
        },
{
    let now = utc_now_seconds();
    create_test_address_with_bucket_at(id, day, time, now)
}

/// Path of the tracker's file in the app's storage directory.
pub fn get_state_file_path(storage_dir: &str) -> (r: String)
    ensures
        r@ == joined_path(storage_dir@, "notification_state.parquet"@),
{
    join_path(storage_dir, "notification_state.parquet")
}

} // verus!
