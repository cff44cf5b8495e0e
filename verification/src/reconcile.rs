//! The series reconciler for exact-keyed series: the rules by which repeated,
//! overlapping snapshots of timestamped counters are folded into one series
//! without counting anything twice.
//!
//! A series is modelled as a map from a timestamp's text to the counter pair
//! stored for it.  A snapshot is a sequence of [`Reading`]s.  Merging a
//! reading either inserts its timestamp or raises the stored pair to the
//! component-wise maximum; the *gain* of a merge is what it adds to the
//! all-time total: the full count of a new timestamp, and only the increase
//! of one that was already stored.

use vstd::prelude::*;
use crate::report_models::QuantifiableEvents;
use crate::series::KeyedSeries;

verus! {

/// One `{key, count, uniques}` entry of a snapshot.
pub struct Reading {
    pub key: Seq<char>,
    pub count: u64,
    pub uniques: u64,
}

/// An entry of a snapshot, as the reconciler reads it: the text it is keyed
/// by (a timestamp, a referring site, a content path) and its counter pair.
pub trait SeriesPoint {
    /// The reading that this entry carries.
    spec fn reading(&self) -> Reading;

    fn key(&self) -> (key: &String)
        ensures
            key@ == self.reading().key,
    ;

    fn count(&self) -> (count: u64)
        ensures
            count == self.reading().count,
    ;

    fn uniques(&self) -> (uniques: u64)
        ensures
            uniques == self.reading().uniques,
    ;
}

/// The readings that a snapshot's entries carry, in order.
pub open spec fn readings<P: SeriesPoint>(points: Seq<P>) -> Seq<Reading> {
    points.map_values(|p: P| p.reading())
}

/// The larger of two counts.
pub open spec fn larger(a: u64, b: u64) -> u64 {
    if a >= b {
        a
    } else {
        b
    }
}

/// The pair stored for a reading's timestamp once the reading is merged.
pub open spec fn upserted(m: Map<Seq<char>, QuantifiableEvents>, r: Reading) -> QuantifiableEvents {
    if m.contains_key(r.key) {
        QuantifiableEvents {
            amount: larger(m[r.key].amount, r.count),
            amount_unique: larger(m[r.key].amount_unique, r.uniques),
        }
    } else {
        QuantifiableEvents { amount: r.count, amount_unique: r.uniques }
    }
}

/// The series after one reading is merged: a new timestamp is inserted, a
/// known one is raised to the component-wise maximum.
pub open spec fn upsert(m: Map<Seq<char>, QuantifiableEvents>, r: Reading) -> Map<
    Seq<char>,
    QuantifiableEvents,
> {
    m.insert(r.key, upserted(m, r))
}

/// What merging one reading adds to the all-time count.
pub open spec fn step_gain(m: Map<Seq<char>, QuantifiableEvents>, r: Reading) -> int {
    if m.contains_key(r.key) {
        if r.count > m[r.key].amount {
            r.count - m[r.key].amount
        } else {
            0
        }
    } else {
        r.count as int
    }
}

/// What merging one reading adds to the all-time count of unique visitors.
pub open spec fn step_gain_unique(m: Map<Seq<char>, QuantifiableEvents>, r: Reading) -> int {
    if m.contains_key(r.key) {
        if r.uniques > m[r.key].amount_unique {
            r.uniques - m[r.key].amount_unique
        } else {
            0
        }
    } else {
        r.uniques as int
    }
}

/// The series after a whole snapshot is merged, reading by reading.
pub open spec fn merge(m: Map<Seq<char>, QuantifiableEvents>, rs: Seq<Reading>) -> Map<
    Seq<char>,
    QuantifiableEvents,
>
    decreases rs.len(),
{
    if rs.len() == 0 {
        m
    } else {
        upsert(merge(m, rs.drop_last()), rs.last())
    }
}

/// What merging a whole snapshot adds to the all-time count.
pub open spec fn gain(m: Map<Seq<char>, QuantifiableEvents>, rs: Seq<Reading>) -> int
    decreases rs.len(),
{
    if rs.len() == 0 {
        0
    } else {
        gain(m, rs.drop_last()) + step_gain(merge(m, rs.drop_last()), rs.last())
    }
}

/// What merging a whole snapshot adds to the all-time count of unique
/// visitors.
pub open spec fn gain_unique(m: Map<Seq<char>, QuantifiableEvents>, rs: Seq<Reading>) -> int
    decreases rs.len(),
{
    if rs.len() == 0 {
        0
    } else {
        gain_unique(m, rs.drop_last()) + step_gain_unique(merge(m, rs.drop_last()), rs.last())
    }
}

/// Merges one reading into the series and returns what it adds to the
/// all-time pair: everything for a new key, only the increase for a known
/// one, and never less than nothing.
pub fn merge_reading(
    series: &mut KeyedSeries<QuantifiableEvents>,
    key: &String,
    count: u64,
    uniques: u64,
) -> (added: QuantifiableEvents)
    ensures
        final(series)@ == upsert(old(series)@, (Reading { key: key@, count, uniques })),
        added.amount == step_gain(old(series)@, (Reading { key: key@, count, uniques })),
        added.amount_unique == step_gain_unique(
            old(series)@,
            (Reading { key: key@, count, uniques }),
        ),
{
    match series.position(key) {
        Some(index) => {
            let stored = *series.value_at(index);
            let mut next = stored;
            let mut added = QuantifiableEvents { amount: 0, amount_unique: 0 };
            if count > stored.amount {
                added.amount = count - stored.amount;
                next.amount = count;
            }
            if uniques > stored.amount_unique {
                added.amount_unique = uniques - stored.amount_unique;
                next.amount_unique = uniques;
            }
            series.set_value(index, next);
            added
        },
        None => {
            let fresh = QuantifiableEvents { amount: count, amount_unique: uniques };
            series.push_new(key.clone(), fresh);
            fresh
        },
    }
}

/// The all-time pair still fits in 64 bits once it has advanced by the
/// snapshot's gain.
pub open spec fn total_fits(
    total: QuantifiableEvents,
    m: Map<Seq<char>, QuantifiableEvents>,
    rs: Seq<Reading>,
) -> bool {
    &&& total.amount + gain(m, rs) <= u64::MAX
    &&& total.amount_unique + gain_unique(m, rs) <= u64::MAX
}

/// The all-time pair advanced by the snapshot's gain.
pub open spec fn advanced_total(
    total: QuantifiableEvents,
    m: Map<Seq<char>, QuantifiableEvents>,
    rs: Seq<Reading>,
) -> QuantifiableEvents {
    QuantifiableEvents {
        amount: (total.amount + gain(m, rs)) as u64,
        amount_unique: (total.amount_unique + gain_unique(m, rs)) as u64,
    }
}

/// Merges a snapshot of an exact-keyed series that feeds an all-time total,
/// watching the total: returns the advanced total, or `None` as soon as it
/// would pass 64 bits.  After `None` the series holds a part of the snapshot
/// and is fit only to be thrown away.
pub fn merge_exact_checked<P: SeriesPoint>(
    series: &mut KeyedSeries<QuantifiableEvents>,
    points: &Vec<P>,
    total: QuantifiableEvents,
) -> (next_total: Option<QuantifiableEvents>)
    ensures
        total_fits(total, old(series)@, readings(points@)) ==> next_total == Some(
            advanced_total(total, old(series)@, readings(points@)),
        ) && final(series)@ == merge(old(series)@, readings(points@)),
        !total_fits(total, old(series)@, readings(points@)) ==> next_total is None,
{
    let ghost start = series@;
    let ghost all = readings(points@);
    let mut running = total;
    let mut i: usize = 0;
    proof {
        assert(all.take(0) =~= Seq::<Reading>::empty());
    }
    while i < points.len()
        invariant
            i <= points.len(),
            all == readings(points@),
            all.len() == points.len(),
            start == old(series)@,
            series@ == merge(start, all.take(i as int)),
            running.amount == total.amount + gain(start, all.take(i as int)),
            running.amount_unique == total.amount_unique + gain_unique(start, all.take(i as int)),
        decreases points.len() - i,
    {
        let point = &points[i];
        proof {
            law_gain_monotonic(start, all, i + 1);
            assert(all.take(i + 1).drop_last() =~= all.take(i as int));
            assert(all.take(i + 1).last() == points@[i as int].reading());
        }
        let added = merge_reading(series, point.key(), point.count(), point.uniques());
        assert(running.amount + added.amount == total.amount + gain(start, all.take(i + 1)));
        assert(running.amount_unique + added.amount_unique == total.amount_unique + gain_unique(
            start,
            all.take(i + 1),
        ));
        if added.amount > u64::MAX - running.amount || added.amount_unique > u64::MAX
            - running.amount_unique {
            return None;
        }
        running.amount = running.amount + added.amount;
        running.amount_unique = running.amount_unique + added.amount_unique;
        i += 1;
    }
    proof {
        assert(all.take(i as int) =~= all);
    }
    Some(running)
}

/// Merges a snapshot of an exact-keyed series that feeds an all-time total
/// (the hourly series), and returns the total as it stands afterwards.
///
/// The totals advance by the snapshot's gain and by nothing else; the caller
/// owes that they still fit in 64 bits.
pub fn merge_exact<P: SeriesPoint>(
    series: &mut KeyedSeries<QuantifiableEvents>,
    points: &Vec<P>,
    total: QuantifiableEvents,
) -> (next_total: QuantifiableEvents)
    requires
        total_fits(total, old(series)@, readings(points@)),
    ensures
        final(series)@ == merge(old(series)@, readings(points@)),
        next_total == advanced_total(total, old(series)@, readings(points@)),
        next_total.amount >= total.amount,
        next_total.amount_unique >= total.amount_unique,
{
    proof {
        lemma_gain_nonnegative(series@, readings(points@));
    }
    match merge_exact_checked(series, points, total) {
        Some(next_total) => next_total,
        None => total,
    }
}

/// Merges a snapshot of a windowed series (the weekly series): the same
/// maximum-upsert, feeding no total.  The still-open last week of the window
/// is written with every snapshot and so follows the server until the window
/// moves on.
pub fn merge_windowed<P: SeriesPoint>(series: &mut KeyedSeries<QuantifiableEvents>, points: &Vec<P>)
    ensures
        final(series)@ == merge(old(series)@, readings(points@)),
{
    let ghost start = series@;
    let ghost all = readings(points@);
    let mut i: usize = 0;
    proof {
        assert(all.take(0) =~= Seq::<Reading>::empty());
    }
    while i < points.len()
        invariant
            i <= points.len(),
            all == readings(points@),
            all.len() == points.len(),
            series@ == merge(start, all.take(i as int)),
        decreases points.len() - i,
    {
        let point = &points[i];
        proof {
            assert(all.take(i + 1).drop_last() =~= all.take(i as int));
            assert(all.take(i + 1).last() == points@[i as int].reading());
        }
        let _ = merge_reading(series, point.key(), point.count(), point.uniques());
        i += 1;
    }
    proof {
        assert(all.take(i as int) =~= all);
    }
}

/// The series holds the reading's timestamp with a pair at least as large.
pub open spec fn covers(m: Map<Seq<char>, QuantifiableEvents>, r: Reading) -> bool {
    &&& m.contains_key(r.key)
    &&& m[r.key].amount >= r.count
    &&& m[r.key].amount_unique >= r.uniques
}

/// Every stored pair counts no more unique visitors than visits.
pub open spec fn consistent(m: Map<Seq<char>, QuantifiableEvents>) -> bool {
    forall|k: Seq<char>| m.contains_key(k) ==> (#[trigger] m[k]).amount_unique <= m[k].amount
}

/// Every reading counts no more unique visitors than visits.
pub open spec fn consistent_readings(rs: Seq<Reading>) -> bool {
    forall|i: int| 0 <= i < rs.len() ==> (#[trigger] rs[i]).uniques <= rs[i].count
}

/// The reading occurs in the snapshot.
pub open spec fn occurs_in(r: Reading, rs: Seq<Reading>) -> bool {
    exists|j: int| 0 <= j < rs.len() && rs[j] == r
}

/// A reading that the series covers changes nothing and gains nothing.
pub proof fn lemma_covered_is_absorbed(m: Map<Seq<char>, QuantifiableEvents>, r: Reading)
    requires
        covers(m, r),
    ensures
        upsert(m, r) == m,
        step_gain(m, r) == 0,
        step_gain_unique(m, r) == 0,
{
    assert(upsert(m, r) =~= m);
}

/// Two readings may be merged in either order: the series and the summed
/// gains come out the same.
pub proof fn lemma_upsert_commutes(m: Map<Seq<char>, QuantifiableEvents>, a: Reading, b: Reading)
    ensures
        upsert(upsert(m, a), b) == upsert(upsert(m, b), a),
        step_gain(m, a) + step_gain(upsert(m, a), b) == step_gain(m, b) + step_gain(
            upsert(m, b),
            a,
        ),
        step_gain_unique(m, a) + step_gain_unique(upsert(m, a), b) == step_gain_unique(m, b)
            + step_gain_unique(upsert(m, b), a),
{
    assert(upsert(upsert(m, a), b) =~= upsert(upsert(m, b), a));
}

/// **Merges compose.**  Merging two snapshots one after the other is merging
/// one snapshot that holds the readings of both, in that order: the series
/// come out the same, and the gains add up.
pub proof fn law_merges_compose(
    m: Map<Seq<char>, QuantifiableEvents>,
    a: Seq<Reading>,
    b: Seq<Reading>,
)
    ensures
        merge(m, a + b) == merge(merge(m, a), b),
        gain(m, a + b) == gain(m, a) + gain(merge(m, a), b),
        gain_unique(m, a + b) == gain_unique(m, a) + gain_unique(merge(m, a), b),
    decreases b.len(),
{
    if b.len() == 0 {
        assert(a + b =~= a);
    } else {
        assert((a + b).drop_last() =~= a + b.drop_last());
        assert((a + b).last() == b.last());
        law_merges_compose(m, a, b.drop_last());
    }
}

/// A reading merged before a snapshot may as well be merged after it.
pub proof fn lemma_upsert_moves_through(
    m: Map<Seq<char>, QuantifiableEvents>,
    r: Reading,
    rs: Seq<Reading>,
)
    ensures
        merge(upsert(m, r), rs) == upsert(merge(m, rs), r),
        step_gain(m, r) + gain(upsert(m, r), rs) == gain(m, rs) + step_gain(merge(m, rs), r),
        step_gain_unique(m, r) + gain_unique(upsert(m, r), rs) == gain_unique(m, rs)
            + step_gain_unique(merge(m, rs), r),
    decreases rs.len(),
{
    if rs.len() > 0 {
        lemma_upsert_moves_through(m, r, rs.drop_last());
        lemma_upsert_commutes(merge(m, rs.drop_last()), r, rs.last());
    }
}

/// Once merged, a reading is covered by the series.
pub proof fn lemma_upsert_covers(m: Map<Seq<char>, QuantifiableEvents>, r: Reading)
    ensures
        covers(upsert(m, r), r),
{
}

/// Merging never uncovers a reading: stored pairs only grow.
pub proof fn lemma_merge_keeps_covered(
    m: Map<Seq<char>, QuantifiableEvents>,
    rs: Seq<Reading>,
    r: Reading,
)
    requires
        covers(m, r),
    ensures
        covers(merge(m, rs), r),
    decreases rs.len(),
{
    if rs.len() > 0 {
        lemma_merge_keeps_covered(m, rs.drop_last(), r);
    }
}

/// After a snapshot is merged, the series covers each of its readings.
pub proof fn lemma_merge_covers(m: Map<Seq<char>, QuantifiableEvents>, rs: Seq<Reading>, i: int)
    requires
        0 <= i < rs.len(),
    ensures
        covers(merge(m, rs), rs[i]),
    decreases rs.len(),
{
    if i == rs.len() - 1 {
        lemma_upsert_covers(merge(m, rs.drop_last()), rs.last());
    } else {
        lemma_merge_covers(m, rs.drop_last(), i);
        assert(rs.drop_last()[i] == rs[i]);
        lemma_upsert_covers(merge(m, rs.drop_last()), rs.last());
        let before = merge(m, rs.drop_last());
        assert(covers(upsert(before, rs.last()), rs[i]));
    }
}

/// A snapshot all of whose readings the series covers changes nothing and
/// gains nothing.
pub proof fn lemma_covered_snapshot_is_absorbed(
    m: Map<Seq<char>, QuantifiableEvents>,
    rs: Seq<Reading>,
)
    requires
        forall|i: int| 0 <= i < rs.len() ==> covers(m, #[trigger] rs[i]),
    ensures
        merge(m, rs) == m,
        gain(m, rs) == 0,
        gain_unique(m, rs) == 0,
    decreases rs.len(),
{
    if rs.len() > 0 {
        assert forall|i: int| 0 <= i < rs.drop_last().len() implies covers(
            m,
            #[trigger] rs.drop_last()[i],
        ) by {
            assert(rs.drop_last()[i] == rs[i]);
        }
        lemma_covered_snapshot_is_absorbed(m, rs.drop_last());
        assert(covers(m, rs[rs.len() - 1]));
        lemma_covered_is_absorbed(m, rs.last());
    }
}

/// **Idempotence.**  Merging the same snapshot twice in a row yields the
/// series that merging it once yields, and the second merge adds nothing to
/// the all-time totals.
pub proof fn law_merge_idempotent(m: Map<Seq<char>, QuantifiableEvents>, rs: Seq<Reading>)
    ensures
        merge(merge(m, rs), rs) == merge(m, rs),
        gain(merge(m, rs), rs) == 0,
        gain_unique(merge(m, rs), rs) == 0,
{
    assert forall|i: int| 0 <= i < rs.len() implies covers(merge(m, rs), #[trigger] rs[i]) by {
        lemma_merge_covers(m, rs, i);
    }
    lemma_covered_snapshot_is_absorbed(merge(m, rs), rs);
}

/// **Monotonicity.**  No merge lowers an all-time total: every gain is
/// non-negative, and the gain of a part of a snapshot is at most the gain of
/// the whole.
pub proof fn law_gain_monotonic(m: Map<Seq<char>, QuantifiableEvents>, rs: Seq<Reading>, n: int)
    requires
        0 <= n <= rs.len(),
    ensures
        0 <= gain(m, rs.take(n)) <= gain(m, rs),
        0 <= gain_unique(m, rs.take(n)) <= gain_unique(m, rs),
    decreases rs.len() - n,
{
    if n == rs.len() {
        assert(rs.take(n) =~= rs);
        lemma_gain_nonnegative(m, rs);
    } else {
        law_gain_monotonic(m, rs, n + 1);
        let longer = rs.take(n + 1);
        assert(longer.drop_last() =~= rs.take(n));
        assert(gain(m, longer) == gain(m, rs.take(n)) + step_gain(
            merge(m, rs.take(n)),
            longer.last(),
        ));
        assert(gain_unique(m, longer) == gain_unique(m, rs.take(n)) + step_gain_unique(
            merge(m, rs.take(n)),
            longer.last(),
        ));
        lemma_gain_nonnegative(m, rs.take(n));
    }
}

/// Every gain is non-negative.
pub proof fn lemma_gain_nonnegative(m: Map<Seq<char>, QuantifiableEvents>, rs: Seq<Reading>)
    ensures
        0 <= gain(m, rs),
        0 <= gain_unique(m, rs),
    decreases rs.len(),
{
    if rs.len() > 0 {
        lemma_gain_nonnegative(m, rs.drop_last());
    }
}

/// A reading that occurs in a snapshot may be merged ahead of it without
/// changing the outcome or the summed gain.
pub proof fn lemma_member_merged_ahead(
    m: Map<Seq<char>, QuantifiableEvents>,
    r: Reading,
    rs: Seq<Reading>,
)
    requires
        occurs_in(r, rs),
    ensures
        merge(upsert(m, r), rs) == merge(m, rs),
        step_gain(m, r) + gain(upsert(m, r), rs) == gain(m, rs),
        step_gain_unique(m, r) + gain_unique(upsert(m, r), rs) == gain_unique(m, rs),
    decreases rs.len(),
{
    let j = choose|j: int| 0 <= j < rs.len() && rs[j] == r;
    let front = rs.drop_last();
    if j < rs.len() - 1 {
        assert(front[j] == r);
        lemma_member_merged_ahead(m, r, front);
    } else {
        lemma_upsert_moves_through(m, r, front);
        lemma_upsert_covers(merge(m, front), r);
        lemma_covered_is_absorbed(upsert(merge(m, front), r), r);
    }
}

/// **No double counting.**  Where every reading of snapshot `a` occurs in
/// snapshot `b` with the same values, merging `a` and then `b` leaves the
/// series and the all-time totals exactly where merging `b` alone leaves
/// them.
pub proof fn law_superset_counts_once(
    m: Map<Seq<char>, QuantifiableEvents>,
    a: Seq<Reading>,
    b: Seq<Reading>,
)
    requires
        forall|i: int| 0 <= i < a.len() ==> occurs_in(#[trigger] a[i], b),
    ensures
        merge(merge(m, a), b) == merge(m, b),
        gain(m, a) + gain(merge(m, a), b) == gain(m, b),
        gain_unique(m, a) + gain_unique(merge(m, a), b) == gain_unique(m, b),
    decreases a.len(),
{
    if a.len() > 0 {
        let front = a.drop_last();
        assert forall|i: int| 0 <= i < front.len() implies occurs_in(#[trigger] front[i], b) by {
            assert(front[i] == a[i]);
        }
        law_superset_counts_once(m, front, b);
        assert(occurs_in(a[a.len() - 1], b));
        lemma_member_merged_ahead(merge(m, front), a.last(), b);
    }
}

/// **Untouched entries stay fixed.**  A timestamp that no reading of the
/// snapshot names is stored after the merge exactly as before it; in
/// particular a weekly entry that has left the reported window never changes
/// again.
pub proof fn law_merge_keeps_other_keys(
    m: Map<Seq<char>, QuantifiableEvents>,
    rs: Seq<Reading>,
    key: Seq<char>,
)
    requires
        forall|i: int| 0 <= i < rs.len() ==> (#[trigger] rs[i]).key != key,
    ensures
        merge(m, rs).contains_key(key) == m.contains_key(key),
        m.contains_key(key) ==> merge(m, rs)[key] == m[key],
    decreases rs.len(),
{
    if rs.len() > 0 {
        assert forall|i: int| 0 <= i < rs.drop_last().len() implies (#[trigger] rs.drop_last()[i]).key
            != key by {
            assert(rs.drop_last()[i] == rs[i]);
        }
        law_merge_keeps_other_keys(m, rs.drop_last(), key);
        assert(rs[rs.len() - 1].key != key);
    }
}

/// **No entry is ever removed.**  Every timestamp that is stored before a
/// merge is stored after it.
pub proof fn lemma_merge_keeps_keys(
    m: Map<Seq<char>, QuantifiableEvents>,
    rs: Seq<Reading>,
    key: Seq<char>,
)
    requires
        m.contains_key(key),
    ensures
        merge(m, rs).contains_key(key),
    decreases rs.len(),
{
    if rs.len() > 0 {
        lemma_merge_keeps_keys(m, rs.drop_last(), key);
    }
}

/// **A reported entry is rewritten by every merge.**  Where the snapshot
/// names a timestamp exactly once, the merge stores for it the reading's
/// values if the timestamp is new, and otherwise the component-wise maximum
/// of what was stored and what was read: an entry that is still growing is
/// overwritten with each newer, larger reading.
pub proof fn law_merge_rewrites_named_key(
    m: Map<Seq<char>, QuantifiableEvents>,
    rs: Seq<Reading>,
    i: int,
)
    requires
        0 <= i < rs.len(),
        forall|j: int| 0 <= j < rs.len() && j != i ==> (#[trigger] rs[j]).key != rs[i].key,
    ensures
        merge(m, rs).contains_key(rs[i].key),
        merge(m, rs)[rs[i].key] == upserted(m, rs[i]),
    decreases rs.len(),
{
    let front = rs.drop_last();
    if i == rs.len() - 1 {
        assert forall|j: int| 0 <= j < front.len() implies (#[trigger] front[j]).key != rs[i].key by {
            assert(front[j] == rs[j]);
        }
        law_merge_keeps_other_keys(m, front, rs[i].key);
    } else {
        assert forall|j: int| 0 <= j < front.len() && j != i implies (#[trigger] front[j]).key
            != front[i].key by {
            assert(front[j] == rs[j]);
            assert(front[i] == rs[i]);
        }
        law_merge_rewrites_named_key(m, front, i);
        assert(front[i] == rs[i]);
        assert(rs[rs.len() - 1].key != rs[i].key);
    }
}

/// **Counter pairs stay consistent.**  If no stored pair and no reading
/// counts more unique visitors than visits, no pair does after the merge.
pub proof fn law_merge_keeps_consistent(m: Map<Seq<char>, QuantifiableEvents>, rs: Seq<Reading>)
    requires
        consistent(m),
        consistent_readings(rs),
    ensures
        consistent(merge(m, rs)),
    decreases rs.len(),
{
    if rs.len() > 0 {
        assert forall|i: int| 0 <= i < rs.drop_last().len() implies (#[trigger] rs.drop_last()[i]).uniques
            <= rs.drop_last()[i].count by {
            assert(rs.drop_last()[i] == rs[i]);
        }
        law_merge_keeps_consistent(m, rs.drop_last());
        let before = merge(m, rs.drop_last());
        let r = rs[rs.len() - 1];
        assert(r.uniques <= r.count);
        assert forall|k: Seq<char>| upsert(before, r).contains_key(k) implies (#[trigger] upsert(
            before,
            r,
        )[k]).amount_unique <= upsert(before, r)[k].amount by {
            if k != r.key {
                assert(before.contains_key(k));
                assert(before[k].amount_unique <= before[k].amount);
            } else if before.contains_key(k) {
                assert(before[k].amount_unique <= before[k].amount);
            }
        }
    }
}

/// The series after a sequence of snapshots is merged, one after the other.
pub open spec fn merge_all(
    m: Map<Seq<char>, QuantifiableEvents>,
    snapshots: Seq<Seq<Reading>>,
) -> Map<Seq<char>, QuantifiableEvents>
    decreases snapshots.len(),
{
    if snapshots.len() == 0 {
        m
    } else {
        merge(merge_all(m, snapshots.drop_last()), snapshots.last())
    }
}

/// What a sequence of merges adds to the all-time count.
pub open spec fn gain_all(
    m: Map<Seq<char>, QuantifiableEvents>,
    snapshots: Seq<Seq<Reading>>,
) -> int
    decreases snapshots.len(),
{
    if snapshots.len() == 0 {
        0
    } else {
        gain_all(m, snapshots.drop_last()) + gain(
            merge_all(m, snapshots.drop_last()),
            snapshots.last(),
        )
    }
}

/// What a sequence of merges adds to the all-time count of unique visitors.
pub open spec fn gain_all_unique(
    m: Map<Seq<char>, QuantifiableEvents>,
    snapshots: Seq<Seq<Reading>>,
) -> int
    decreases snapshots.len(),
{
    if snapshots.len() == 0 {
        0
    } else {
        gain_all_unique(m, snapshots.drop_last()) + gain_unique(
            merge_all(m, snapshots.drop_last()),
            snapshots.last(),
        )
    }
}

/// **Monotonicity over any sequence of merges.**  Whatever snapshots are
/// merged in whatever order, the all-time totals after the first `n` of them
/// are at least what they were at the start and at most what they are after
/// all of them.
pub proof fn law_totals_never_decrease(
    m: Map<Seq<char>, QuantifiableEvents>,
    snapshots: Seq<Seq<Reading>>,
    n: int,
)
    requires
        0 <= n <= snapshots.len(),
    ensures
        0 <= gain_all(m, snapshots.take(n)) <= gain_all(m, snapshots),
        0 <= gain_all_unique(m, snapshots.take(n)) <= gain_all_unique(m, snapshots),
    decreases snapshots.len() - n, n,
{
    if n == snapshots.len() {
        assert(snapshots.take(n) =~= snapshots);
        if n > 0 {
            law_totals_never_decrease(m, snapshots.drop_last(), n - 1);
            assert(snapshots.drop_last().take(n - 1) =~= snapshots.drop_last());
            lemma_gain_nonnegative(merge_all(m, snapshots.drop_last()), snapshots.last());
        }
    } else {
        law_totals_never_decrease(m, snapshots, n + 1);
        let longer = snapshots.take(n + 1);
        assert(longer.drop_last() =~= snapshots.take(n));
        assert(gain_all(m, longer) == gain_all(m, snapshots.take(n)) + gain(
            merge_all(m, snapshots.take(n)),
            longer.last(),
        ));
        assert(gain_all_unique(m, longer) == gain_all_unique(m, snapshots.take(n)) + gain_unique(
            merge_all(m, snapshots.take(n)),
            longer.last(),
        ));
        lemma_gain_nonnegative(merge_all(m, snapshots.take(n)), longer.last());
        law_totals_never_decrease(m, snapshots.take(n), n);
    }
}

} // verus!
