//! Contents of the urgency panels: which addresses each panel shows and in which
//! order (soonest first; the panel of addresses without cleaning by postal code,
//! empty codes last). Orders are stable: addresses that compare equal keep their
//! order.
use vstd::prelude::*;
use crate::calendar::utc_now_seconds;
use crate::components::countdown::{
    bucket_at, bucket_for_at, next_occurrence_delay, next_start_delay, time_until_next_occurrence_at,
    time_until_next_start_at, TimeBucket,
};
use crate::structs::DB;
use crate::ui::StoredAddress;

verus! {

/// Keys by which items are ordered: a total preorder.
pub trait SortKey: Sized {
    /// `self` may come before `other`.
    spec fn key_le(self, other: Self) -> bool;

    proof fn lemma_total(a: Self, b: Self)
        ensures
            a.key_le(b) || b.key_le(a),
    ;

    proof fn lemma_trans(a: Self, b: Self, c: Self)
        requires
            a.key_le(b),
            b.key_le(c),
        ensures
            a.key_le(c),
    ;

    fn le(&self, other: &Self) -> (r: bool)
        ensures
            r == self.key_le(*other),
    ;
}

/// In a stable order of `keys`, index `i` comes before index `j`: its key is
/// smaller, or the keys are equivalent and `i` is the earlier index.
pub open spec fn comes_before<K: SortKey>(keys: Seq<K>, i: int, j: int) -> bool {
    keys[i].key_le(keys[j]) && (!keys[j].key_le(keys[i]) || i < j)
}

/// `order` lists each index of `keys` once, ordered by `comes_before`.
pub open spec fn is_stable_order<K: SortKey>(keys: Seq<K>, order: Seq<usize>) -> bool {
    &&& order.len() == keys.len()
    &&& forall|a: int| 0 <= a < order.len() ==> (#[trigger] order[a]) < keys.len()
    &&& forall|a: int, b: int| 0 <= a < b < order.len() ==> order[a] != order[b]
    &&& forall|a: int, b: int|
        0 <= a < b < order.len() ==> comes_before(keys, #[trigger] order[a] as int, #[trigger] order[b] as int)
}

/// The indices of `keys` in stable order.
pub fn stable_order<K: SortKey>(keys: &Vec<K>) -> (r: Vec<usize>)
    ensures
        is_stable_order(keys@, r@),
{
    let mut order: Vec<usize> = Vec::new();
    let mut i: usize = 0;
    while i < keys.len()
        invariant
            i <= keys@.len(),
            order@.len() == i,
            forall|a: int| 0 <= a < order@.len() ==> (#[trigger] order@[a]) < i,
            forall|a: int, b: int| 0 <= a < b < order@.len() ==> order@[a] != order@[b],
            forall|a: int, b: int|
                0 <= a < b < order@.len() ==> comes_before(
                    keys@,
                    #[trigger] order@[a] as int,
                    #[trigger] order@[b] as int,
                ),
        decreases keys@.len() - i,
    {
        let mut p: usize = 0;
        while p < order.len() && keys[order[p]].le(&keys[i])
            invariant
                i < keys@.len(),
                p <= order@.len(),
                forall|a: int| 0 <= a < order@.len() ==> (#[trigger] order@[a]) < i,
                forall|a: int| 0 <= a < p ==> (#[trigger] keys@[order@[a] as int]).key_le(keys@[i as int]),
            decreases order@.len() - p,
        {
            p = p + 1;
        }
        let ghost old_order = order@;
        proof {
            if p < old_order.len() {
                K::lemma_total(keys@[old_order[p as int] as int], keys@[i as int]);
            }
            assert forall|b: int| p <= b < old_order.len() implies comes_before(
                keys@,
                i as int,
                old_order[b] as int,
            ) && !keys@[old_order[b] as int].key_le(keys@[i as int]) by {
                let kp = keys@[old_order[p as int] as int];
                let kb = keys@[old_order[b] as int];
                let ki = keys@[i as int];
                if b > p {
                    assert(comes_before(keys@, old_order[p as int] as int, old_order[b] as int));
                    K::lemma_trans(ki, kp, kb);
                    if kb.key_le(ki) {
                        K::lemma_trans(kp, kb, ki);
                    }
                }
            }
        }
        order.insert(p, i);
        proof {
            let n = order@;
            assert forall|a: int, b: int| 0 <= a < b < n.len() implies comes_before(
                keys@,
                #[trigger] n[a] as int,
                #[trigger] n[b] as int,
            ) by {
                if a < p && b < p {
                    assert(n[a] == old_order[a] && n[b] == old_order[b]);
                } else if a < p && b == p {
                    assert(n[a] == old_order[a]);
                } else if a < p && b > p {
                    assert(n[a] == old_order[a] && n[b] == old_order[b - 1]);
                } else if a == p {
                    assert(n[b] == old_order[b - 1]);
                } else {
                    assert(n[a] == old_order[a - 1] && n[b] == old_order[b - 1]);
                }
            }
            assert forall|a: int, b: int| 0 <= a < b < n.len() implies n[a] != n[b] by {
                if a < p && b < p {
                    assert(n[a] == old_order[a] && n[b] == old_order[b]);
                } else if a < p && b > p {
                    assert(n[a] == old_order[a] && n[b] == old_order[b - 1]);
                } else if a > p {
                    assert(n[a] == old_order[a - 1] && n[b] == old_order[b - 1]);
                } else if a < p {
                    assert(n[a] == old_order[a]);
                } else {
                    assert(n[b] == old_order[b - 1]);
                }
            }
            assert forall|a: int| 0 <= a < n.len() implies (#[trigger] n[a]) < i + 1 by {
                if a < p {
                    assert(n[a] == old_order[a]);
                } else if a > p {
                    assert(n[a] == old_order[a - 1]);
                }
            }
        }
        i = i + 1;
    }
    order
}

/// `r` holds the items of `items` in the order `order`.
pub open spec fn arranged<T>(items: Seq<T>, order: Seq<usize>, r: Seq<T>) -> bool {
    &&& r.len() == order.len()
    &&& forall|k: int| 0 <= k < r.len() ==> #[trigger] r[k] == items[order[k] as int]
}

fn arrange(items: &Vec<StoredAddress>, order: &Vec<usize>) -> (r: Vec<StoredAddress>)
    requires
        forall|k: int| 0 <= k < order@.len() ==> (#[trigger] order@[k]) < items@.len(),
    ensures
        arranged(items@, order@, r@),
{
    let mut out: Vec<StoredAddress> = Vec::new();
    let mut k: usize = 0;
    while k < order.len()
        invariant
            k <= order@.len(),
            forall|j: int| 0 <= j < order@.len() ==> (#[trigger] order@[j]) < items@.len(),
            out@.len() == k,
            forall|j: int| 0 <= j < k ==> #[trigger] out@[j] == items@[order@[j] as int],
        decreases order@.len() - k,
    {
        out.push(items[order[k]].clone());
        k = k + 1;
    }
    out
}

/// Time left as a sort key: smaller first, unknown last.
#[derive(Clone, Copy, Debug, PartialEq, Eq, Structural)]
pub struct TimeKey {
    pub seconds: Option<u64>,
}

impl SortKey for TimeKey {
    open spec fn key_le(self, other: Self) -> bool {
        match (self.seconds, other.seconds) {
            (Some(a), Some(b)) => a <= b,
            (Some(_), None) => true,
            (None, Some(_)) => false,
            (None, None) => true,
        }
    }

    proof fn lemma_total(a: Self, b: Self) {
    }

    proof fn lemma_trans(a: Self, b: Self, c: Self) {
    }

    fn le(&self, other: &Self) -> (r: bool) {
        match (self.seconds, other.seconds) {
            (Some(a), Some(b)) => a <= b,
            (Some(_), None) => true,
            (None, Some(_)) => false,
            (None, None) => true,
        }
    }
}

/// Lexicographic order of texts by character.
pub open spec fn text_le(a: Seq<char>, b: Seq<char>) -> bool
    decreases a.len(),
{
    if a.len() == 0 {
        true
    } else if b.len() == 0 {
        false
    } else if a[0] != b[0] {
        a[0] < b[0]
    } else {
        text_le(a.drop_first(), b.drop_first())
    }
}

proof fn lemma_text_total(a: Seq<char>, b: Seq<char>)
    ensures
        text_le(a, b) || text_le(b, a),
    decreases a.len(),
{
    if a.len() > 0 && b.len() > 0 && a[0] == b[0] {
        lemma_text_total(a.drop_first(), b.drop_first());
    }
}

proof fn lemma_text_trans(a: Seq<char>, b: Seq<char>, c: Seq<char>)
    requires
        text_le(a, b),
        text_le(b, c),
    ensures
        text_le(a, c),
    decreases a.len(),
{
    if a.len() > 0 && b.len() > 0 && c.len() > 0 && a[0] == b[0] && b[0] == c[0] {
        lemma_text_trans(a.drop_first(), b.drop_first(), c.drop_first());
    }
}

/// A postal code as a sort key: non-empty codes by text order, empty codes last.
pub struct PostalKey {
    pub code: String,
}

impl SortKey for PostalKey {
    open spec fn key_le(self, other: Self) -> bool {
        if self.code@.len() == 0 {
            other.code@.len() == 0
        } else if other.code@.len() == 0 {
            true
        } else {
            text_le(self.code@, other.code@)
        }
    }

    proof fn lemma_total(a: Self, b: Self) {
        lemma_text_total(a.code@, b.code@);
    }

    proof fn lemma_trans(a: Self, b: Self, c: Self) {
        if a.code@.len() > 0 && b.code@.len() > 0 && c.code@.len() > 0 {
            lemma_text_trans(a.code@, b.code@, c.code@);
        }
    }

    fn le(&self, other: &Self) -> (r: bool) {
        let a = self.code.as_str();
        let b = other.code.as_str();
        let n = a.unicode_len();
        let m = b.unicode_len();
        if n == 0 {
            return m == 0;
        }
        if m == 0 {
            return true;
        }
        let mut i: usize = 0;
        while i < n && i < m && a.get_char(i) == b.get_char(i)
            invariant
                n == a@.len(),
                m == b@.len(),
                i <= n,
                i <= m,
                forall|k: int| 0 <= k < i ==> a@[k] == b@[k],
            decreases n - i,
        {
            i = i + 1;
        }
        proof {
            lemma_text_le_at(a@, b@, i as int);
        }
        if i == n {
            true
        } else if i == m {
            false
        } else {
            a.get_char(i) < b.get_char(i)
        }
    }
}

proof fn lemma_text_le_at(a: Seq<char>, b: Seq<char>, i: int)
    requires
        0 <= i <= a.len(),
        i <= b.len(),
        forall|k: int| 0 <= k < i ==> a[k] == b[k],
        i == a.len() || i == b.len() || a[i] != b[i],
    ensures
        text_le(a, b) == (if i == a.len() {
            true
        } else if i == b.len() {
            false
        } else {
            a[i] < b[i]
        }),
    decreases i,
{
    if i > 0 {
        assert forall|k: int| 0 <= k < i - 1 implies a.drop_first()[k] == b.drop_first()[k] by {
            assert(a[k + 1] == b[k + 1]);
        }
        assert(a[0] == b[0]);
        lemma_text_le_at(a.drop_first(), b.drop_first(), i - 1);
    }
}

/// Sort key of an address: seconds until its restriction ends (or starts next
/// month) at `now`; unknown without a restriction.
pub open spec fn occurrence_key(a: StoredAddress, now: int) -> TimeKey {
    TimeKey {
        seconds: match a.matched_entry {
            Some(db) => match next_occurrence_delay(db, now) {
                Some(d) => Some(d as u64),
                None => None,
            },
            None => None,
        },
    }
}

/// Sort key of an address: seconds until its restriction starts (this month or
/// next) at `now`; unknown without a restriction.
pub open spec fn start_key(a: StoredAddress, now: int) -> TimeKey {
    TimeKey {
        seconds: match a.matched_entry {
            Some(db) => match next_start_delay(db, now) {
                Some(d) => Some(d as u64),
                None => None,
            },
            None => None,
        },
    }
}

/// The keys of a list of addresses.
pub open spec fn keys_of(s: Seq<StoredAddress>, key: spec_fn(StoredAddress) -> TimeKey) -> Seq<TimeKey> {
    s.map_values(key)
}

/// `r` is `s` in the stable order of `keys`.
pub open spec fn sorted_by_keys<K: SortKey>(s: Seq<StoredAddress>, keys: Seq<K>, r: Seq<StoredAddress>) -> bool {
    exists|order: Seq<usize>| is_stable_order(keys, order) && arranged(s, order, r)
}

/// `r` is `s` ordered by time until the restriction ends at `now`.
pub open spec fn sorted_by_end(s: Seq<StoredAddress>, now: int, r: Seq<StoredAddress>) -> bool {
    sorted_by_keys(s, keys_of(s, |a: StoredAddress| occurrence_key(a, now)), r)
}

/// `r` is `s` ordered by time until the restriction starts at `now`.
pub open spec fn sorted_by_start(s: Seq<StoredAddress>, now: int, r: Seq<StoredAddress>) -> bool {
    sorted_by_keys(s, keys_of(s, |a: StoredAddress| start_key(a, now)), r)
}

fn time_keys(addrs: &Vec<StoredAddress>, now: i64, by_start: bool) -> (r: Vec<TimeKey>)
    ensures
        by_start ==> r@ == keys_of(addrs@, |a: StoredAddress| start_key(a, now as int)),
        !by_start ==> r@ == keys_of(addrs@, |a: StoredAddress| occurrence_key(a, now as int)),
{
    let mut keys: Vec<TimeKey> = Vec::new();
    let mut i: usize = 0;
    while i < addrs.len()
        invariant
            i <= addrs@.len(),
            keys@.len() == i,
            forall|k: int|
                0 <= k < i ==> #[trigger] keys@[k] == (if by_start {
                    start_key(addrs@[k], now as int)
                } else {
                    occurrence_key(addrs@[k], now as int)
                }),
        decreases addrs@.len() - i,
    {
        let seconds = match &addrs[i].matched_entry {
            Some(db) => if by_start {
                time_until_next_start_at(db, now)
            } else {
                time_until_next_occurrence_at(db, now)
            },
            None => None,
        };
        keys.push(TimeKey { seconds });
        i = i + 1;
    }
    proof {
        if by_start {
            assert(keys@ =~= keys_of(addrs@, |a: StoredAddress| start_key(a, now as int)));
        } else {
            assert(keys@ =~= keys_of(addrs@, |a: StoredAddress| occurrence_key(a, now as int)));
        }
    }
    keys
}

/// A panel ordered by time until the end holds the same number of addresses as it
/// was given, each one taken from them, soonest first.
pub proof fn lemma_sorted_by_end_soonest_first(s: Seq<StoredAddress>, now: int, r: Seq<StoredAddress>)
    requires
        sorted_by_end(s, now, r),
    ensures
        r.len() == s.len(),
        forall|k: int| 0 <= k < r.len() ==> s.contains(#[trigger] r[k]),
        forall|k: int, l: int|
            0 <= k < l < r.len() ==> occurrence_key(#[trigger] r[k], now).key_le(occurrence_key(#[trigger] r[l], now)),
{
    let keys = keys_of(s, |a: StoredAddress| occurrence_key(a, now));
    let order = choose|order: Seq<usize>| is_stable_order(keys, order) && arranged(s, order, r);
    assert forall|k: int| 0 <= k < r.len() implies s.contains(#[trigger] r[k]) by {
        assert(r[k] == s[order[k] as int]);
    }
    assert forall|k: int, l: int| 0 <= k < l < r.len() implies occurrence_key(#[trigger] r[k], now).key_le(
        occurrence_key(#[trigger] r[l], now),
    ) by {
        assert(comes_before(keys, order[k] as int, order[l] as int));
        assert(r[k] == s[order[k] as int] && r[l] == s[order[l] as int]);
    }
}

proof fn lemma_delays_fit(db: DB, now: int)
    requires
        i64::MIN <= now <= i64::MAX,
    ensures
        next_occurrence_delay(db, now) matches Some(d) ==> 0 < d < 0x1_0000_0000_0000_0000,
        next_start_delay(db, now) matches Some(d) ==> 0 < d < 0x1_0000_0000_0000_0000,
{
}

/// Seconds until the restriction of `a` ends (or, once ended, until its start next
/// month), when it has one.
pub open spec fn time_to_end_of(a: StoredAddress, now: int) -> Option<int> {
    match a.matched_entry {
        Some(db) => next_occurrence_delay(db, now),
        None => None,
    }
}

/// Seconds until the restriction of `a` starts (this month or next), when it has
/// one.
pub open spec fn time_to_start_of(a: StoredAddress, now: int) -> Option<int> {
    match a.matched_entry {
        Some(db) => next_start_delay(db, now),
        None => None,
    }
}

/// Ordered by the time until the end: of two addresses, the earlier one has a
/// known time whenever the later one does, and it is no longer; addresses
/// without a time come last.
pub proof fn lemma_order_by_time_to_end(s: Seq<StoredAddress>, now: int, r: Seq<StoredAddress>)
    requires
        i64::MIN <= now <= i64::MAX,
        sorted_by_end(s, now, r),
    ensures
        forall|k: int, l: int|
            0 <= k < l < r.len() ==> match time_to_end_of(#[trigger] r[l], now) {
                Some(dl) => time_to_end_of(#[trigger] r[k], now) matches Some(dk) && dk <= dl,
                None => true,
            },
{
    lemma_sorted_by_end_soonest_first(s, now, r);
    assert forall|k: int, l: int| 0 <= k < l < r.len() implies match time_to_end_of(#[trigger] r[l], now) {
        Some(dl) => time_to_end_of(#[trigger] r[k], now) matches Some(dk) && dk <= dl,
        None => true,
    } by {
        assert(occurrence_key(r[k], now).key_le(occurrence_key(r[l], now)));
        if let Some(db) = r[k].matched_entry {
            lemma_delays_fit(db, now);
        }
        if let Some(db) = r[l].matched_entry {
            lemma_delays_fit(db, now);
        }
    }
}

/// Ordered by the time until the start: of two addresses, the earlier one has a
/// known time whenever the later one does, and it is no longer; addresses
/// without a time come last.
pub proof fn lemma_order_by_time_to_start(s: Seq<StoredAddress>, now: int, r: Seq<StoredAddress>)
    requires
        i64::MIN <= now <= i64::MAX,
        sorted_by_start(s, now, r),
    ensures
        forall|k: int, l: int|
            0 <= k < l < r.len() ==> match time_to_start_of(#[trigger] r[l], now) {
                Some(dl) => time_to_start_of(#[trigger] r[k], now) matches Some(dk) && dk <= dl,
                None => true,
            },
{
    let keys = keys_of(s, |a: StoredAddress| start_key(a, now));
    let order = choose|order: Seq<usize>| is_stable_order(keys, order) && arranged(s, order, r);
    assert forall|k: int, l: int| 0 <= k < l < r.len() implies match time_to_start_of(#[trigger] r[l], now) {
        Some(dl) => time_to_start_of(#[trigger] r[k], now) matches Some(dk) && dk <= dl,
        None => true,
    } by {
        assert(comes_before(keys, order[k] as int, order[l] as int));
        assert(r[k] == s[order[k] as int] && r[l] == s[order[l] as int]);
        assert(start_key(r[k], now).key_le(start_key(r[l], now)));
        if let Some(db) = r[k].matched_entry {
            lemma_delays_fit(db, now);
        }
        if let Some(db) = r[l].matched_entry {
            lemma_delays_fit(db, now);
        }
    }
}

/// Addresses ordered by the time until their restriction ends (or its next start
/// next month) at `now`, soonest first, those without a time last.
pub fn sorting_time_at(active_addrs: Vec<StoredAddress>, now: i64) -> (r: Vec<StoredAddress>)
    ensures
        sorted_by_end(active_addrs@, now as int, r@),
{
    let keys = time_keys(&active_addrs, now, false);
    let order = stable_order(&keys);
    let r = arrange(&active_addrs, &order);
    assert(is_stable_order(keys@, order@) && arranged(active_addrs@, order@, r@));
    r
}

/// Addresses ordered by the time until their restriction starts (this month or
/// next) at `now`, soonest first, those without a time last.
pub fn sorting_time_by_start_at(addrs: Vec<StoredAddress>, now: i64) -> (r: Vec<StoredAddress>)
    ensures
        sorted_by_start(addrs@, now as int, r@),
{
    let keys = time_keys(&addrs, now, true);
    let order = stable_order(&keys);
    let r = arrange(&addrs, &order);
    assert(is_stable_order(keys@, order@) && arranged(addrs@, order@, r@));
    r
}

/// `sorting_time_at` at the current instant.
pub fn sorting_time(active_addrs: Vec<StoredAddress>) -> (r: Vec<StoredAddress>)
    ensures
        exists|now: i64| sorted_by_end(active_addrs@, now as int, r@),
{
    let now = utc_now_seconds();
    sorting_time_at(active_addrs, now)
}

/// `sorting_time_by_start_at` at the current instant.
pub fn sorting_time_by_start(addrs: Vec<StoredAddress>) -> (r: Vec<StoredAddress>)
    ensures
        exists|now: i64| sorted_by_start(addrs@, now as int, r@),
{
    let now = utc_now_seconds();
    sorting_time_by_start_at(addrs, now)
}

/// An address shown in the panel of `bucket` at `now`: valid, active, with a
/// restriction in that bucket.
pub open spec fn in_panel(a: StoredAddress, bucket: TimeBucket, now: int) -> bool {
    a.valid && a.active && match a.matched_entry {
        Some(db) => bucket_at(db, now) == bucket,
        None => false,
    }
}

/// The addresses of `s` that satisfy `p`, in order.
pub open spec fn filtered(s: Seq<StoredAddress>, p: spec_fn(StoredAddress) -> bool) -> Seq<StoredAddress>
    decreases s.len(),
{
    if s.len() == 0 {
        Seq::empty()
    } else {
        let f = filtered(s.drop_last(), p);
        if p(s.last()) { f.push(s.last()) } else { f }
    }
}

fn panel_members(addresses: &Vec<StoredAddress>, bucket: TimeBucket, now: i64) -> (r: Vec<StoredAddress>)
    ensures
        r@ == filtered(addresses@, |a: StoredAddress| in_panel(a, bucket, now as int)),
{
    let mut out: Vec<StoredAddress> = Vec::new();
    let mut i: usize = 0;
    while i < addresses.len()
        invariant
            i <= addresses@.len(),
            out@ == filtered(addresses@.take(i as int), |a: StoredAddress| in_panel(a, bucket, now as int)),
        decreases addresses@.len() - i,
    {
        proof {
            assert(addresses@.take(i + 1).drop_last() =~= addresses@.take(i as int));
            assert(addresses@.take(i + 1).last() == addresses@[i as int]);
        }
        let a = &addresses[i];
        if a.valid && a.active {
            match &a.matched_entry {
                Some(db) => {
                    if bucket_for_at(db, now) == bucket {
                        out.push(a.clone());
                    }
                },
                None => {},
            }
        }
        i = i + 1;
    }
    proof {
        assert(addresses@.take(addresses@.len() as int) =~= addresses@);
    }
    out
}

/// Index `j` occurs in `order`.
pub open spec fn index_listed(order: Seq<usize>, j: int) -> bool {
    exists|a: int| 0 <= a < order.len() && order[a] as int == j
}

proof fn lemma_order_covers(order: Seq<usize>, n: int)
    requires
        order.len() == n,
        forall|a: int| 0 <= a < n ==> (#[trigger] order[a]) < n,
        forall|a: int, b: int| 0 <= a < b < n ==> order[a] != order[b],
    ensures
        forall|j: int| 0 <= j < n ==> #[trigger] index_listed(order, j),
{
    broadcast use vstd::seq_lib::seq_to_set_is_finite;

    let ints = Seq::new(n as nat, |a: int| order[a] as int);
    assert(ints.no_duplicates()) by {
        assert forall|i: int, j: int| 0 <= i < ints.len() && 0 <= j < ints.len() && i != j implies ints[i]
            != ints[j] by {
            if i < j {
                assert(order[i] != order[j]);
            } else {
                assert(order[j] != order[i]);
            }
        }
    }
    ints.unique_seq_to_set();
    let whole = vstd::set_lib::set_int_range(0, n);
    vstd::set_lib::lemma_int_range(0, n);
    assert(ints.to_set().subset_of(whole)) by {
        assert forall|x: int| ints.to_set().contains(x) implies whole.contains(x) by {
            let a = choose|a: int| 0 <= a < ints.len() && ints[a] == x;
            assert(order[a] < n);
        }
    }
    vstd::set_lib::lemma_subset_equality(ints.to_set(), whole);
    assert forall|j: int| 0 <= j < n implies #[trigger] index_listed(order, j) by {
        assert(whole.contains(j));
        assert(ints.to_set().contains(j));
        let a = choose|a: int| 0 <= a < ints.len() && ints[a] == j;
        assert(order[a] as int == j);
    }
}

proof fn lemma_sorted_same_items<K: SortKey>(s: Seq<StoredAddress>, keys: Seq<K>, r: Seq<StoredAddress>)
    requires
        keys.len() == s.len(),
        sorted_by_keys(s, keys, r),
    ensures
        r.len() == s.len(),
        forall|k: int| 0 <= k < r.len() ==> s.contains(#[trigger] r[k]),
        forall|i: int| 0 <= i < s.len() ==> r.contains(#[trigger] s[i]),
{
    let order = choose|order: Seq<usize>| is_stable_order(keys, order) && arranged(s, order, r);
    assert forall|k: int| 0 <= k < r.len() implies s.contains(#[trigger] r[k]) by {
        assert(r[k] == s[order[k] as int]);
    }
    lemma_order_covers(order, s.len() as int);
    assert forall|i: int| 0 <= i < s.len() implies r.contains(#[trigger] s[i]) by {
        assert(index_listed(order, i));
        let a = choose|a: int| 0 <= a < order.len() && order[a] as int == i;
        assert(r[a] == s[i]);
    }
}

proof fn lemma_filtered_members(s: Seq<StoredAddress>, p: spec_fn(StoredAddress) -> bool)
    ensures
        forall|k: int| 0 <= k < filtered(s, p).len() ==> p(#[trigger] filtered(s, p)[k]) && s.contains(
            filtered(s, p)[k],
        ),
        forall|i: int| 0 <= i < s.len() && p(#[trigger] s[i]) ==> filtered(s, p).contains(s[i]),
    decreases s.len(),
{
    if s.len() > 0 {
        let d = s.drop_last();
        lemma_filtered_members(d, p);
        let f = filtered(d, p);
        assert forall|k: int| 0 <= k < filtered(s, p).len() implies p(#[trigger] filtered(s, p)[k]) && s.contains(
            filtered(s, p)[k],
        ) by {
            if k < f.len() {
                assert(filtered(s, p)[k] == f[k]);
                let j = choose|j: int| 0 <= j < d.len() && d[j] == f[k];
                assert(s[j] == d[j]);
            } else {
                assert(s[s.len() - 1] == s.last());
            }
        }
        assert forall|i: int| 0 <= i < s.len() && p(#[trigger] s[i]) implies filtered(s, p).contains(s[i]) by {
            if i < s.len() - 1 {
                assert(d[i] == s[i]);
                let j = choose|j: int| 0 <= j < f.len() && f[j] == d[i];
                assert(filtered(s, p)[j] == f[j]);
            } else {
                assert(s.last() == s[i]);
                assert(filtered(s, p)[f.len() as int] == s[i]);
            }
        }
    }
}

/// A bucket panel shows exactly the followed addresses that are valid, active and
/// whose restriction is in that bucket at `now`: every address shown is such an
/// address of the list, and every such address is shown (an address switched off
/// or without a restriction never is).
pub proof fn lemma_panel_contents(addresses: Seq<StoredAddress>, bucket: TimeBucket, now: int, r: Seq<StoredAddress>)
    requires
        ({
            let members = filtered(addresses, |a: StoredAddress| in_panel(a, bucket, now));
            if bucket == TimeBucket::Now {
                sorted_by_end(members, now, r)
            } else {
                sorted_by_start(members, now, r)
            }
        }),
    ensures
        forall|k: int|
            0 <= k < r.len() ==> {
                &&& addresses.contains(#[trigger] r[k])
                &&& r[k].active
                &&& r[k].valid
                &&& r[k].matched_entry matches Some(db) && bucket_at(db, now) == bucket
            },
        forall|i: int|
            0 <= i < addresses.len() && (#[trigger] addresses[i]).active && addresses[i].valid
                && (addresses[i].matched_entry matches Some(db) && bucket_at(db, now) == bucket) ==> r.contains(
                addresses[i],
            ),
{
    let p = |a: StoredAddress| in_panel(a, bucket, now);
    let members = filtered(addresses, p);
    lemma_filtered_members(addresses, p);
    if bucket == TimeBucket::Now {
        lemma_sorted_same_items(members, keys_of(members, |a: StoredAddress| occurrence_key(a, now)), r);
    } else {
        lemma_sorted_same_items(members, keys_of(members, |a: StoredAddress| start_key(a, now)), r);
    }
    assert forall|k: int| 0 <= k < r.len() implies {
        &&& addresses.contains(#[trigger] r[k])
        &&& r[k].active
        &&& r[k].valid
        &&& r[k].matched_entry matches Some(db) && bucket_at(db, now) == bucket
    } by {
        let j = choose|j: int| 0 <= j < members.len() && members[j] == r[k];
        assert(p(members[j]));
    }
    assert forall|i: int|
        0 <= i < addresses.len() && (#[trigger] addresses[i]).active && addresses[i].valid
            && (addresses[i].matched_entry matches Some(db) && bucket_at(db, now) == bucket) implies r.contains(
        addresses[i],
    ) by {
        assert(p(addresses[i]));
        let j = choose|j: int| 0 <= j < members.len() && members[j] == addresses[i];
        assert(r.contains(members[j]));
    }
}

/// The addresses that the panel of `bucket` shows at `now`, in display order: the
/// panel of restrictions in force by time until they end, the others by time until
/// they start.
pub fn panel_addresses_at(addresses: &Vec<StoredAddress>, bucket: TimeBucket, now: i64) -> (r: Vec<
    StoredAddress,
>)
    ensures
        ({
            let members = filtered(addresses@, |a: StoredAddress| in_panel(a, bucket, now as int));
            if bucket == TimeBucket::Now {
                sorted_by_end(members, now as int, r@)
            } else {
                sorted_by_start(members, now as int, r@)
            }
        }),
        forall|k: int|
            0 <= k < r@.len() ==> {
                &&& addresses@.contains(#[trigger] r@[k])
                &&& r@[k].active
                &&& r@[k].valid
                &&& r@[k].matched_entry matches Some(db) && bucket_at(db, now as int) == bucket
            },
        forall|i: int|
            0 <= i < addresses@.len() && (#[trigger] addresses@[i]).active && addresses@[i].valid
                && (addresses@[i].matched_entry matches Some(db) && bucket_at(db, now as int) == bucket) ==> r@.contains(
                addresses@[i],
            ),
{
    let members = panel_members(addresses, bucket, now);
    let r = if bucket == TimeBucket::Now {
        sorting_time_at(members, now)
    } else {
        sorting_time_by_start_at(members, now)
    };
    proof {
        lemma_panel_contents(addresses@, bucket, now as int, r@);
    }
    r
}

/// An address shown in the panel of addresses without cleaning: active but not
/// valid.
pub open spec fn in_invalid_panel(a: StoredAddress) -> bool {
    a.active && !a.valid
}

/// The postal-code keys of a list of addresses.
pub open spec fn postal_keys_match(s: Seq<StoredAddress>, keys: Seq<PostalKey>) -> bool {
    &&& keys.len() == s.len()
    &&& forall|k: int| 0 <= k < s.len() ==> (#[trigger] keys[k]).code@ == s[k].postal_code@
}

/// The panel without cleaning shows exactly the followed addresses that are active
/// but not valid: every address shown is such an address of the list, and every
/// such address is shown.
pub proof fn lemma_invalid_panel_contents(addresses: Seq<StoredAddress>, r: Seq<StoredAddress>)
    requires
        ({
            let members = filtered(addresses, |a: StoredAddress| in_invalid_panel(a));
            exists|keys: Seq<PostalKey>| postal_keys_match(members, keys) && sorted_by_keys(members, keys, r)
        }),
    ensures
        forall|k: int| 0 <= k < r.len() ==> addresses.contains(#[trigger] r[k]) && r[k].active && !r[k].valid,
        forall|i: int| 0 <= i < addresses.len() && (#[trigger] addresses[i]).active && !addresses[i].valid ==> r.contains(
            addresses[i],
        ),
{
    let p = |a: StoredAddress| in_invalid_panel(a);
    let members = filtered(addresses, p);
    lemma_filtered_members(addresses, p);
    let keys = choose|keys: Seq<PostalKey>| postal_keys_match(members, keys) && sorted_by_keys(members, keys, r);
    lemma_sorted_same_items(members, keys, r);
    assert forall|k: int| 0 <= k < r.len() implies addresses.contains(#[trigger] r[k]) && r[k].active
        && !r[k].valid by {
        let j = choose|j: int| 0 <= j < members.len() && members[j] == r[k];
        assert(p(members[j]));
    }
    assert forall|i: int| 0 <= i < addresses.len() && (#[trigger] addresses[i]).active && !addresses[i].valid implies r.contains(
        addresses[i],
    ) by {
        assert(p(addresses[i]));
        let j = choose|j: int| 0 <= j < members.len() && members[j] == addresses[i];
        assert(r.contains(members[j]));
    }
}

/// The addresses of the panel without cleaning, ordered by postal code with empty
/// codes last.
pub fn invalid_panel_addresses(addresses: &Vec<StoredAddress>) -> (r: Vec<StoredAddress>)
    ensures
        ({
            let members = filtered(addresses@, |a: StoredAddress| in_invalid_panel(a));
            exists|keys: Seq<PostalKey>| postal_keys_match(members, keys) && sorted_by_keys(members, keys, r@)
        }),
{
    let mut members: Vec<StoredAddress> = Vec::new();
    let mut i: usize = 0;
    while i < addresses.len()
        invariant
            i <= addresses@.len(),
            members@ == filtered(addresses@.take(i as int), |a: StoredAddress| in_invalid_panel(a)),
        decreases addresses@.len() - i,
    {
        proof {
            assert(addresses@.take(i + 1).drop_last() =~= addresses@.take(i as int));
            assert(addresses@.take(i + 1).last() == addresses@[i as int]);
        }
        if addresses[i].active && !addresses[i].valid {
            members.push(addresses[i].clone());
        }
        i = i + 1;
    }
    proof {
        assert(addresses@.take(addresses@.len() as int) =~= addresses@);
    }
    addresses_by_postal_code(&members)
}

/// The followed addresses ordered by postal code (text order), empty codes last;
/// addresses with equal codes keep their order.
pub fn addresses_by_postal_code(addresses: &Vec<StoredAddress>) -> (r: Vec<StoredAddress>)
    ensures
        exists|keys: Seq<PostalKey>| postal_keys_match(addresses@, keys) && sorted_by_keys(addresses@, keys, r@),
{
    let mut keys: Vec<PostalKey> = Vec::new();
    let mut j: usize = 0;
    while j < addresses.len()
        invariant
            j <= addresses@.len(),
            keys@.len() == j,
            forall|k: int| 0 <= k < j ==> (#[trigger] keys@[k]).code@ == addresses@[k].postal_code@,
        decreases addresses@.len() - j,
    {
        keys.push(PostalKey { code: addresses[j].postal_code.clone() });
        j = j + 1;
    }
    let order = stable_order(&keys);
    let r = arrange(addresses, &order);
    assert(postal_keys_match(addresses@, keys@) && is_stable_order(keys@, order@) && arranged(addresses@, order@, r@));
    r
}

} // verus!
