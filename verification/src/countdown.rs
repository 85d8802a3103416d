//! Countdown to the end of a restriction and urgency buckets by time left until
//! that end, measured from a given instant.
use vstd::prelude::*;
use crate::calendar::utc_now_seconds;
use crate::components::countdown::{active_at, format_dhm, until_end, until_start};
use crate::structs::DB;
use vstd::multiset::Multiset;
use crate::text::{decimal, u64_to_string, u64_to_string2};

verus! {

/// Urgency categories by time left until the restriction ends.
#[derive(Clone, Copy, Debug, PartialEq, Eq, Structural, Hash, PartialOrd, Ord)]
pub enum TimeBucket {
    /// Ends within 4 hours.
    Now,
    /// Ends within 6 hours.
    Within6Hours,
    /// Ends within 1 day.
    Within1Day,
    /// Ends within 31 days.
    Within1Month,
    /// Ended, or ends more than 31 days away.
    Invalid,
}

impl TimeBucket {
    /// Human-readable label of the bucket.
    pub open spec fn spec_label(self) -> Seq<char> {
        match self {
            TimeBucket::Now => "Urgent (< 4h)"@,
            TimeBucket::Within6Hours => "Soon (< 6h)"@,
            TimeBucket::Within1Day => "Today (< 24h)"@,
            TimeBucket::Within1Month => "This Month"@,
            TimeBucket::Invalid => "Invalid/Expired"@,
        }
    }

    /// Emoji of the bucket.
    pub open spec fn spec_icon(self) -> Seq<char> {
        match self {
            TimeBucket::Now => "🔴"@,
            TimeBucket::Within6Hours => "🟡"@,
            TimeBucket::Within1Day => "🟢"@,
            TimeBucket::Within1Month => "⚪"@,
            TimeBucket::Invalid => "⚫"@,
        }
    }

    /// Human-readable label of the bucket.
    pub fn label(&self) -> (r: &'static str)
        ensures
            r@ == self.spec_label(),
    {
        match self {
            TimeBucket::Now => "Urgent (< 4h)",
            TimeBucket::Within6Hours => "Soon (< 6h)",
            TimeBucket::Within1Day => "Today (< 24h)",
            TimeBucket::Within1Month => "This Month",
            TimeBucket::Invalid => "Invalid/Expired",
        }
    }

    /// Emoji of the bucket.
    pub fn icon(&self) -> (r: &'static str)
        ensures
            r@ == self.spec_icon(),
    {
        match self {
            TimeBucket::Now => "🔴",
            TimeBucket::Within6Hours => "🟡",
            TimeBucket::Within1Day => "🟢",
            TimeBucket::Within1Month => "⚪",
            TimeBucket::Invalid => "⚫",
        }
    }
}

/// Bucket of a restriction by the time left until it ends at `now`.
pub open spec fn end_bucket_at(db: DB, now: int) -> TimeBucket {
    match until_end(db, now) {
        None => TimeBucket::Invalid,
        Some(d) => if d <= 4 * 3600 {
            TimeBucket::Now
        } else if d <= 6 * 3600 {
            TimeBucket::Within6Hours
        } else if d <= 86400 {
            TimeBucket::Within1Day
        } else if d <= 31 * 86400 {
            TimeBucket::Within1Month
        } else {
            TimeBucket::Invalid
        },
    }
}

/// The bucket of a restriction is decided by the time left until it ends: at
/// most 4 hours is `Now`, at most 6 hours `Within6Hours`, at most a day
/// `Within1Day`, at most 31 days `Within1Month`; an ended restriction, or one
/// ending later than that, is `Invalid`.
pub proof fn lemma_end_bucket_by_time_left(db: DB, now: int)
    ensures
        now >= db.end_time ==> end_bucket_at(db, now) == TimeBucket::Invalid,
        0 < db.end_time - now <= 4 * 3600 ==> end_bucket_at(db, now) == TimeBucket::Now,
        4 * 3600 < db.end_time - now <= 6 * 3600 ==> end_bucket_at(db, now) == TimeBucket::Within6Hours,
        6 * 3600 < db.end_time - now <= 86400 ==> end_bucket_at(db, now) == TimeBucket::Within1Day,
        86400 < db.end_time - now <= 31 * 86400 ==> end_bucket_at(db, now) == TimeBucket::Within1Month,
        db.end_time - now > 31 * 86400 ==> end_bucket_at(db, now) == TimeBucket::Invalid,
{
}

/// Bucket of a restriction by the time left until it ends at `now`.
pub fn bucket_for_at(restriction: &DB, now: i64) -> (r: TimeBucket)
    ensures
        r == end_bucket_at(*restriction, now as int),
        now >= restriction.end_time ==> r == TimeBucket::Invalid,
        0 < restriction.end_time - now <= 4 * 3600 ==> r == TimeBucket::Now,
        4 * 3600 < restriction.end_time - now <= 6 * 3600 ==> r == TimeBucket::Within6Hours,
        6 * 3600 < restriction.end_time - now <= 86400 ==> r == TimeBucket::Within1Day,
        86400 < restriction.end_time - now <= 31 * 86400 ==> r == TimeBucket::Within1Month,
        restriction.end_time - now > 31 * 86400 ==> r == TimeBucket::Invalid,
{
    match restriction.time_until_end(now) {
        None => TimeBucket::Invalid,
        Some(d) => if d <= 4 * 3600 {
            TimeBucket::Now
        } else if d <= 6 * 3600 {
            TimeBucket::Within6Hours
        } else if d <= 86400 {
            TimeBucket::Within1Day
        } else if d <= 31 * 86400 {
            TimeBucket::Within1Month
        } else {
            TimeBucket::Invalid
        },
    }
}

/// `D`d `H`h `M`m, days omitted when zero, without padding.
pub open spec fn format_compact(secs: nat) -> Seq<char> {
    if secs / 86400 > 0 {
        decimal(secs / 86400) + "d "@ + decimal((secs / 3600) % 24) + "h "@ + decimal((secs / 60) % 60) + "m"@
    } else {
        decimal((secs / 3600) % 24) + "h "@ + decimal((secs / 60) % 60) + "m"@
    }
}

/// Days, hours and minutes until the restriction ends at `now`.
pub fn format_countdown_at(restriction: &DB, now: i64) -> (r: Option<String>)
    ensures
        match until_end(*restriction, now as int) {
            Some(d) => r matches Some(s) && s@ == format_dhm(d as nat),
            None => r is None,
        },
{
    let secs = match restriction.time_until_end(now) {
        Some(d) => d,
        None => return None,
    };
    let mut s = u64_to_string(secs / 86400);
    s.append("d ");
    let h = u64_to_string2((secs / 3600) % 24);
    s.append(h.as_str());
    s.append("h ");
    let m = u64_to_string2((secs / 60) % 60);
    s.append(m.as_str());
    s.append("m");
    Some(s)
}

/// Compact countdown until the restriction ends at `now`.
pub fn format_countdown_compact_at(restriction: &DB, now: i64) -> (r: Option<String>)
    ensures
        match until_end(*restriction, now as int) {
            Some(d) => r matches Some(s) && s@ == format_compact(d as nat),
            None => r is None,
        },
{
    let secs = match restriction.time_until_end(now) {
        Some(d) => d,
        None => return None,
    };
    let days = secs / 86400;
    let mut s = String::new();
    if days > 0 {
        let d = u64_to_string(days);
        s.append(d.as_str());
        s.append("d ");
    }
    let h = u64_to_string((secs / 3600) % 24);
    s.append(h.as_str());
    s.append("h ");
    let m = u64_to_string((secs / 60) % 60);
    s.append(m.as_str());
    s.append("m");
    Some(s)
}

/// Restrictions of one bucket, in their order.
pub open spec fn members(s: Seq<DB>, b: TimeBucket, now: int) -> Seq<DB>
    decreases s.len(),
{
    if s.len() == 0 {
        Seq::empty()
    } else if end_bucket_at(s.last(), now) == b {
        members(s.drop_last(), b, now).push(s.last())
    } else {
        members(s.drop_last(), b, now)
    }
}

/// The buckets in their order.
pub open spec fn bucket_order() -> Seq<TimeBucket> {
    seq![
        TimeBucket::Now,
        TimeBucket::Within6Hours,
        TimeBucket::Within1Day,
        TimeBucket::Within1Month,
        TimeBucket::Invalid,
    ]
}

/// The non-empty groups among the first `k` buckets.
pub open spec fn groups(s: Seq<DB>, now: int, k: nat) -> Seq<(TimeBucket, Seq<DB>)>
    decreases k,
{
    if k == 0 {
        Seq::empty()
    } else {
        let rest = groups(s, now, (k - 1) as nat);
        let b = bucket_order()[k - 1];
        let m = members(s, b, now);
        if m.len() > 0 { rest.push((b, m)) } else { rest }
    }
}

/// Number of restrictions over all groups.
pub open spec fn grouped_count(g: Seq<(TimeBucket, Seq<DB>)>) -> nat
    decreases g.len(),
{
    if g.len() == 0 {
        0
    } else {
        grouped_count(g.drop_last()) + g.last().1.len()
    }
}

/// Number of restrictions in the first `k` buckets.
pub open spec fn count_in_buckets(s: Seq<DB>, now: int, k: nat) -> nat
    decreases k,
{
    if k == 0 {
        0
    } else {
        count_in_buckets(s, now, (k - 1) as nat) + members(s, bucket_order()[k - 1], now).len()
    }
}

proof fn lemma_groups_count(s: Seq<DB>, now: int, k: nat)
    ensures
        grouped_count(groups(s, now, k)) == count_in_buckets(s, now, k),
    decreases k,
{
    if k > 0 {
        lemma_groups_count(s, now, (k - 1) as nat);
        let rest = groups(s, now, (k - 1) as nat);
        let b = bucket_order()[k - 1];
        let m = members(s, b, now);
        if m.len() > 0 {
            assert(rest.push((b, m)).drop_last() =~= rest);
        }
    }
}

proof fn lemma_each_in_one_bucket(s: Seq<DB>, now: int)
    ensures
        count_in_buckets(s, now, 5) == s.len(),
    decreases s.len(),
{
    if s.len() > 0 {
        let t = s.drop_last();
        lemma_each_in_one_bucket(t, now);
        let o = bucket_order();
        assert(o[0] == TimeBucket::Now && o[1] == TimeBucket::Within6Hours && o[2] == TimeBucket::Within1Day
            && o[3] == TimeBucket::Within1Month && o[4] == TimeBucket::Invalid);
        assert forall|q: Seq<DB>| #[trigger] count_in_buckets(q, now, 5) == members(q, o[0], now).len() + members(
            q,
            o[1],
            now,
        ).len() + members(q, o[2], now).len() + members(q, o[3], now).len() + members(q, o[4], now).len() by {
            reveal_with_fuel(count_in_buckets, 6);
        }
        assert(count_in_buckets(t, now, 5) == t.len());
        assert(count_in_buckets(s, now, 5) == s.len());
    } else {
        reveal_with_fuel(count_in_buckets, 6);
    }
}

/// Grouping keeps every restriction: the groups hold as many restrictions as were
/// given, each in the group of its bucket.
pub proof fn lemma_grouping_keeps_all(s: Seq<DB>, now: int)
    ensures
        grouped_count(groups(s, now, 5)) == s.len(),
        forall|i: int|
            0 <= i < groups(s, now, 5).len() ==> forall|j: int|
                0 <= j < (#[trigger] groups(s, now, 5)[i]).1.len() ==> end_bucket_at(
                    groups(s, now, 5)[i].1[j],
                    now,
                ) == groups(s, now, 5)[i].0,
{
    lemma_groups_count(s, now, 5);
    lemma_each_in_one_bucket(s, now);
    lemma_groups_members(s, now, 5);
}

/// The restrictions of all groups, group after group.
pub open spec fn grouped_items(g: Seq<(TimeBucket, Seq<DB>)>) -> Seq<DB>
    decreases g.len(),
{
    if g.len() == 0 {
        Seq::empty()
    } else {
        grouped_items(g.drop_last()) + g.last().1
    }
}

/// The restrictions of the first `k` buckets, as a multiset.
pub open spec fn bucket_multiset(s: Seq<DB>, now: int, k: nat) -> Multiset<DB>
    decreases k,
{
    if k == 0 {
        Multiset::empty()
    } else {
        bucket_multiset(s, now, (k - 1) as nat).add(members(s, bucket_order()[k - 1], now).to_multiset())
    }
}

proof fn lemma_groups_multiset(s: Seq<DB>, now: int, k: nat)
    ensures
        grouped_items(groups(s, now, k)).to_multiset() == bucket_multiset(s, now, k),
    decreases k,
{
    broadcast use vstd::seq_lib::group_to_multiset_ensures;

    if k == 0 {
        assert(grouped_items(groups(s, now, k)) =~= Seq::<DB>::empty());
        assert(Seq::<DB>::empty().to_multiset() =~= Multiset::<DB>::empty());
    } else {
        lemma_groups_multiset(s, now, (k - 1) as nat);
        let rest = groups(s, now, (k - 1) as nat);
        let b = bucket_order()[k - 1];
        let m = members(s, b, now);
        if m.len() > 0 {
            let g = rest.push((b, m));
            assert(g.drop_last() =~= rest);
            assert(g.last() == (b, m));
            vstd::seq_lib::lemma_multiset_commutative(grouped_items(rest), m);
        } else {
            assert(m =~= Seq::<DB>::empty());
            assert(m.to_multiset() =~= Multiset::<DB>::empty());
            assert(bucket_multiset(s, now, k) =~= bucket_multiset(s, now, (k - 1) as nat));
        }
    }
}

proof fn lemma_members_push(t: Seq<DB>, x: DB, b: TimeBucket, now: int)
    ensures
        members(t.push(x), b, now).to_multiset() == (if end_bucket_at(x, now) == b {
            members(t, b, now).to_multiset().insert(x)
        } else {
            members(t, b, now).to_multiset()
        }),
{
    broadcast use vstd::seq_lib::group_to_multiset_ensures;

    let s = t.push(x);
    assert(s.drop_last() =~= t);
    assert(s.last() == x);
}

proof fn lemma_buckets_cover(s: Seq<DB>, now: int)
    ensures
        bucket_multiset(s, now, 5) == s.to_multiset(),
    decreases s.len(),
{
    broadcast use vstd::seq_lib::group_to_multiset_ensures;

    let o = bucket_order();
    assert(o[0] == TimeBucket::Now && o[1] == TimeBucket::Within6Hours && o[2] == TimeBucket::Within1Day
        && o[3] == TimeBucket::Within1Month && o[4] == TimeBucket::Invalid);
    assert forall|q: Seq<DB>| #[trigger] bucket_multiset(q, now, 5) == members(q, o[0], now).to_multiset().add(
        members(q, o[1], now).to_multiset(),
    ).add(members(q, o[2], now).to_multiset()).add(members(q, o[3], now).to_multiset()).add(
        members(q, o[4], now).to_multiset(),
    ) by {
        reveal_with_fuel(bucket_multiset, 6);
        assert(Multiset::<DB>::empty().add(members(q, o[0], now).to_multiset()) =~= members(q, o[0], now).to_multiset());
    }
    if s.len() == 0 {
        assert forall|b: TimeBucket| #[trigger] members(s, b, now) =~= Seq::<DB>::empty() by {}
        assert(Seq::<DB>::empty().to_multiset() =~= Multiset::<DB>::empty());
        assert(bucket_multiset(s, now, 5) =~= Multiset::<DB>::empty());
    } else {
        let t = s.drop_last();
        let x = s.last();
        assert(t.push(x) =~= s);
        lemma_buckets_cover(t, now);
        lemma_members_push(t, x, o[0], now);
        lemma_members_push(t, x, o[1], now);
        lemma_members_push(t, x, o[2], now);
        lemma_members_push(t, x, o[3], now);
        lemma_members_push(t, x, o[4], now);
        let eb = end_bucket_at(x, now);
        assert(eb == o[0] || eb == o[1] || eb == o[2] || eb == o[3] || eb == o[4]);
        assert(bucket_multiset(s, now, 5) =~= bucket_multiset(t, now, 5).insert(x));
    }
}

/// Grouping is a rearrangement: the groups, one after the other, hold exactly the
/// restrictions given (as a multiset); no group is empty; and each group holds,
/// in their input order, the restrictions of its bucket.
pub proof fn lemma_grouping_permutes(s: Seq<DB>, now: int)
    ensures
        grouped_items(groups(s, now, 5)).to_multiset() == s.to_multiset(),
        forall|i: int|
            0 <= i < groups(s, now, 5).len() ==> (#[trigger] groups(s, now, 5)[i]).1.len() > 0
                && groups(s, now, 5)[i].1 == s.filter(|x: DB| end_bucket_at(x, now) == groups(s, now, 5)[i].0),
{
    lemma_groups_multiset(s, now, 5);
    lemma_buckets_cover(s, now);
    lemma_groups_shape(s, now, 5);
}

proof fn lemma_members_filter(s: Seq<DB>, b: TimeBucket, now: int)
    ensures
        members(s, b, now) == s.filter(|x: DB| end_bucket_at(x, now) == b),
    decreases s.len(),
{
    reveal(Seq::filter);
    if s.len() > 0 {
        lemma_members_filter(s.drop_last(), b, now);
    }
}

proof fn lemma_groups_shape(s: Seq<DB>, now: int, k: nat)
    requires
        k <= 5,
    ensures
        forall|i: int|
            0 <= i < groups(s, now, k).len() ==> (#[trigger] groups(s, now, k)[i]).1.len() > 0
                && groups(s, now, k)[i].1 == s.filter(|x: DB| end_bucket_at(x, now) == groups(s, now, k)[i].0),
    decreases k,
{
    if k > 0 {
        lemma_groups_shape(s, now, (k - 1) as nat);
        let b = bucket_order()[k - 1];
        lemma_members_filter(s, b, now);
    }
}

proof fn lemma_members_bucket(s: Seq<DB>, b: TimeBucket, now: int)
    ensures
        forall|j: int| 0 <= j < members(s, b, now).len() ==> end_bucket_at(#[trigger] members(s, b, now)[j], now) == b,
    decreases s.len(),
{
    if s.len() > 0 {
        lemma_members_bucket(s.drop_last(), b, now);
    }
}

proof fn lemma_groups_members(s: Seq<DB>, now: int, k: nat)
    requires
        k <= 5,
    ensures
        forall|i: int|
            0 <= i < groups(s, now, k).len() ==> forall|j: int|
                0 <= j < (#[trigger] groups(s, now, k)[i]).1.len() ==> end_bucket_at(
                    groups(s, now, k)[i].1[j],
                    now,
                ) == groups(s, now, k)[i].0,
    decreases k,
{
    if k > 0 {
        lemma_groups_members(s, now, (k - 1) as nat);
        let b = bucket_order()[k - 1];
        lemma_members_bucket(s, b, now);
    }
}

fn members_of(restrictions: &Vec<DB>, b: TimeBucket, now: i64) -> (r: Vec<DB>)
    ensures
        r@ == members(restrictions@, b, now as int),
{
    let mut out: Vec<DB> = Vec::new();
    let mut i: usize = 0;
    while i < restrictions.len()
        invariant
            i <= restrictions@.len(),
            out@ == members(restrictions@.subrange(0, i as int), b, now as int),
        decreases restrictions@.len() - i,
    {
        proof {
            assert(restrictions@.subrange(0, i + 1).drop_last() =~= restrictions@.subrange(0, i as int));
        }
        if bucket_for_at(&restrictions[i], now) == b {
            out.push(restrictions[i].clone());
        }
        i = i + 1;
    }
    assert(restrictions@.subrange(0, restrictions@.len() as int) =~= restrictions@);
    out
}

/// Groups restrictions by bucket at `now`: one group per bucket that has members,
/// in bucket order, each holding its restrictions in their order.
pub fn group_by_bucket_at(restrictions: &Vec<DB>, now: i64) -> (r: Vec<(TimeBucket, Vec<DB>)>)
    ensures
        r@.len() == groups(restrictions@, now as int, 5).len(),
        forall|i: int|
            0 <= i < r@.len() ==> (#[trigger] r@[i]).0 == groups(restrictions@, now as int, 5)[i].0
                && r@[i].1@ == groups(restrictions@, now as int, 5)[i].1,
{
    let order = [
        TimeBucket::Now,
        TimeBucket::Within6Hours,
        TimeBucket::Within1Day,
        TimeBucket::Within1Month,
        TimeBucket::Invalid,
    ];
    let mut out: Vec<(TimeBucket, Vec<DB>)> = Vec::new();
    let mut k: usize = 0;
    while k < 5
        invariant
            k <= 5,
            order@ == bucket_order(),
            out@.len() == groups(restrictions@, now as int, k as nat).len(),
            forall|i: int|
                0 <= i < out@.len() ==> (#[trigger] out@[i]).0 == groups(restrictions@, now as int, k as nat)[i].0
                    && out@[i].1@ == groups(restrictions@, now as int, k as nat)[i].1,
        decreases 5 - k,
    {
        let b = order[k];
        let m = members_of(restrictions, b, now);
        if m.len() > 0 {
            out.push((b, m));
        }
        k = k + 1;
    }
    out
}

/// Seconds until the restriction ends, from the current time.
pub fn remaining_duration(restriction: &DB) -> (r: Option<u64>)
    ensures
        exists|now: i64|
            match #[trigger] until_end(*restriction, now as int) {
                Some(d) => r == Some(d as u64),
                None => r is None,
            },
{
    let now = utc_now_seconds();
    let r = restriction.time_until_end(now);
    assert(match until_end(*restriction, now as int) {
        Some(d) => r == Some(d as u64),
        None => r is None,
    });
    r
}

/// Whether the restriction is in force at the current time.
pub fn is_currently_active(restriction: &DB) -> (r: bool)
    ensures
        exists|now: i64| r == #[trigger] active_at(*restriction, now as int),
{
    let now = utc_now_seconds();
    let r = restriction.is_active(now);
    assert(r == active_at(*restriction, now as int));
    r
}

/// Seconds until the restriction starts, from the current time.
pub fn time_until_start(restriction: &DB) -> (r: Option<u64>)
    ensures
        exists|now: i64|
            match #[trigger] until_start(*restriction, now as int) {
                Some(d) => r == Some(d as u64),
                None => r is None,
            },
{
    let now = utc_now_seconds();
    let r = restriction.time_until_start(now);
    assert(match until_start(*restriction, now as int) {
        Some(d) => r == Some(d as u64),
        None => r is None,
    });
    r
}

/// `bucket_for_at` from the current time.
pub fn bucket_for(restriction: &DB) -> (r: TimeBucket)
    ensures
        exists|now: i64| r == #[trigger] end_bucket_at(*restriction, now as int),
{
    let now = utc_now_seconds();
    bucket_for_at(restriction, now)
}

/// `format_countdown_at` from the current time.
pub fn format_countdown(restriction: &DB) -> (r: Option<String>)
    ensures
        exists|now: i64|
            match #[trigger] until_end(*restriction, now as int) {
                Some(d) => r matches Some(s) && s@ == format_dhm(d as nat),
                None => r is None,
            },
{
    let now = utc_now_seconds();
    format_countdown_at(restriction, now)
}

/// `format_countdown_compact_at` from the current time.
pub fn format_countdown_compact(restriction: &DB) -> (r: Option<String>)
    ensures
        exists|now: i64|
            match #[trigger] until_end(*restriction, now as int) {
                Some(d) => r matches Some(s) && s@ == format_compact(d as nat),
                None => r is None,
            },
{
    let now = utc_now_seconds();
    format_countdown_compact_at(restriction, now)
}

/// `group_by_bucket_at` from the current time.
pub fn group_by_bucket(restrictions: &Vec<DB>) -> (r: Vec<(TimeBucket, Vec<DB>)>)
    ensures
        exists|now: i64|
            r@.len() == #[trigger] groups(restrictions@, now as int, 5).len() && forall|i: int|
                0 <= i < r@.len() ==> (#[trigger] r@[i]).0 == groups(restrictions@, now as int, 5)[i].0
                    && r@[i].1@ == groups(restrictions@, now as int, 5)[i].1,
{
    let now = utc_now_seconds();
    group_by_bucket_at(restrictions, now)
}

} // verus!
