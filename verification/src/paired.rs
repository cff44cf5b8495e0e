//! The exact-keyed reconciler for series that keep the view and the clone
//! counters of one timestamp side by side.
//!
//! The rules are those of [`crate::reconcile`], applied to one side of the
//! stored pair at a time: a reading raises its own side to the component-wise
//! maximum and leaves the other side alone; a timestamp that is new to the
//! series starts with nothing on the other side.

use vstd::prelude::*;
use crate::reconcile::{larger, readings, Reading, SeriesPoint};
use crate::report_models::{Metric, ViewCloneMetric};
use crate::series::KeyedSeries;

verus! {

/// Which of the two counters of a timestamp a snapshot speaks of.
#[derive(Debug, Clone, Copy, PartialEq, Eq, Structural)]
pub enum Side {
    Views,
    Clones,
}

/// The pair of a timestamp for which nothing has been read.
pub open spec fn nothing() -> ViewCloneMetric {
    ViewCloneMetric { views: Metric { all: 0, unique: 0 }, clones: Metric { all: 0, unique: 0 } }
}

/// What is stored for a timestamp; nothing for one that is not stored.
pub open spec fn stored(m: Map<Seq<char>, ViewCloneMetric>, key: Seq<char>) -> ViewCloneMetric {
    if m.contains_key(key) {
        m[key]
    } else {
        nothing()
    }
}

/// One side of a stored pair.
pub open spec fn side_of(pair: ViewCloneMetric, side: Side) -> Metric {
    match side {
        Side::Views => pair.views,
        Side::Clones => pair.clones,
    }
}

/// A stored pair with one side replaced.
pub open spec fn with_side(pair: ViewCloneMetric, side: Side, metric: Metric) -> ViewCloneMetric {
    match side {
        Side::Views => ViewCloneMetric { views: metric, ..pair },
        Side::Clones => ViewCloneMetric { clones: metric, ..pair },
    }
}

/// One side raised to the component-wise maximum of itself and a reading.
pub open spec fn raised(metric: Metric, r: Reading) -> Metric {
    Metric { all: larger(metric.all, r.count), unique: larger(metric.unique, r.uniques) }
}

/// The series after one reading of one side is merged.
pub open spec fn upsert_side(m: Map<Seq<char>, ViewCloneMetric>, r: Reading, side: Side) -> Map<
    Seq<char>,
    ViewCloneMetric,
> {
    m.insert(r.key, with_side(stored(m, r.key), side, raised(side_of(stored(m, r.key), side), r)))
}

/// What merging one reading adds to the all-time count of its side.
pub open spec fn step_gain_side(m: Map<Seq<char>, ViewCloneMetric>, r: Reading, side: Side) -> int {
    if r.count > side_of(stored(m, r.key), side).all {
        r.count - side_of(stored(m, r.key), side).all
    } else {
        0
    }
}

/// What merging one reading adds to the all-time count of unique visitors
/// of its side.
pub open spec fn step_gain_side_unique(
    m: Map<Seq<char>, ViewCloneMetric>,
    r: Reading,
    side: Side,
) -> int {
    if r.uniques > side_of(stored(m, r.key), side).unique {
        r.uniques - side_of(stored(m, r.key), side).unique
    } else {
        0
    }
}

/// The series after a whole snapshot of one side is merged.
pub open spec fn merge_side(
    m: Map<Seq<char>, ViewCloneMetric>,
    rs: Seq<Reading>,
    side: Side,
) -> Map<Seq<char>, ViewCloneMetric>
    decreases rs.len(),
{
    if rs.len() == 0 {
        m
    } else {
        upsert_side(merge_side(m, rs.drop_last(), side), rs.last(), side)
    }
}

/// What merging a whole snapshot adds to the all-time count of its side.
pub open spec fn gain_side(m: Map<Seq<char>, ViewCloneMetric>, rs: Seq<Reading>, side: Side) -> int
    decreases rs.len(),
{
    if rs.len() == 0 {
        0
    } else {
        gain_side(m, rs.drop_last(), side) + step_gain_side(
            merge_side(m, rs.drop_last(), side),
            rs.last(),
            side,
        )
    }
}

/// What merging a whole snapshot adds to the all-time count of unique
/// visitors of its side.
pub open spec fn gain_side_unique(
    m: Map<Seq<char>, ViewCloneMetric>,
    rs: Seq<Reading>,
    side: Side,
) -> int
    decreases rs.len(),
{
    if rs.len() == 0 {
        0
    } else {
        gain_side_unique(m, rs.drop_last(), side) + step_gain_side_unique(
            merge_side(m, rs.drop_last(), side),
            rs.last(),
            side,
        )
    }
}

/// The gain of a part of a snapshot is non-negative and at most the gain of
/// the whole.
pub proof fn lemma_gain_side_monotonic(
    m: Map<Seq<char>, ViewCloneMetric>,
    rs: Seq<Reading>,
    side: Side,
    n: int,
)
    requires
        0 <= n <= rs.len(),
    ensures
        0 <= gain_side(m, rs.take(n), side) <= gain_side(m, rs, side),
        0 <= gain_side_unique(m, rs.take(n), side) <= gain_side_unique(m, rs, side),
    decreases rs.len() - n, n,
{
    if n == rs.len() {
        assert(rs.take(n) =~= rs);
        if n > 0 {
            lemma_gain_side_monotonic(m, rs.drop_last(), side, n - 1);
            assert(rs.drop_last().take(n - 1) =~= rs.drop_last());
        }
    } else {
        lemma_gain_side_monotonic(m, rs, side, n + 1);
        let longer = rs.take(n + 1);
        assert(longer.drop_last() =~= rs.take(n));
        assert(gain_side(m, longer, side) == gain_side(m, rs.take(n), side) + step_gain_side(
            merge_side(m, rs.take(n), side),
            longer.last(),
            side,
        ));
        assert(gain_side_unique(m, longer, side) == gain_side_unique(m, rs.take(n), side)
            + step_gain_side_unique(merge_side(m, rs.take(n), side), longer.last(), side));
        lemma_gain_side_monotonic(m, rs.take(n), side, n);
    }
}

/// **Idempotence.**  Merging the same snapshot of one side twice in a row
/// yields the series that merging it once yields, and adds nothing the
/// second time.
pub proof fn law_merge_side_idempotent(
    m: Map<Seq<char>, ViewCloneMetric>,
    rs: Seq<Reading>,
    side: Side,
)
    ensures
        merge_side(merge_side(m, rs, side), rs, side) == merge_side(m, rs, side),
        gain_side(merge_side(m, rs, side), rs, side) == 0,
        gain_side_unique(merge_side(m, rs, side), rs, side) == 0,
{
    let once = merge_side(m, rs, side);
    assert forall|i: int| 0 <= i < rs.len() implies covers_side(once, #[trigger] rs[i], side) by {
        lemma_merge_side_covers(m, rs, side, i);
    }
    lemma_covered_side_is_absorbed(once, rs, side);
}

/// The series holds the reading's timestamp with its side at least as large.
pub open spec fn covers_side(m: Map<Seq<char>, ViewCloneMetric>, r: Reading, side: Side) -> bool {
    &&& m.contains_key(r.key)
    &&& side_of(m[r.key], side).all >= r.count
    &&& side_of(m[r.key], side).unique >= r.uniques
}

proof fn lemma_merge_side_covers(
    m: Map<Seq<char>, ViewCloneMetric>,
    rs: Seq<Reading>,
    side: Side,
    i: int,
)
    requires
        0 <= i < rs.len(),
    ensures
        covers_side(merge_side(m, rs, side), rs[i], side),
    decreases rs.len(),
{
    if i < rs.len() - 1 {
        lemma_merge_side_covers(m, rs.drop_last(), side, i);
        assert(rs.drop_last()[i] == rs[i]);
    }
}

proof fn lemma_covered_side_is_absorbed(
    m: Map<Seq<char>, ViewCloneMetric>,
    rs: Seq<Reading>,
    side: Side,
)
    requires
        forall|i: int| 0 <= i < rs.len() ==> covers_side(m, #[trigger] rs[i], side),
    ensures
        merge_side(m, rs, side) == m,
        gain_side(m, rs, side) == 0,
        gain_side_unique(m, rs, side) == 0,
    decreases rs.len(),
{
    if rs.len() > 0 {
        assert forall|i: int| 0 <= i < rs.drop_last().len() implies covers_side(
            m,
            #[trigger] rs.drop_last()[i],
            side,
        ) by {
            assert(rs.drop_last()[i] == rs[i]);
        }
        lemma_covered_side_is_absorbed(m, rs.drop_last(), side);
        assert(covers_side(m, rs[rs.len() - 1], side));
        assert(upsert_side(m, rs.last(), side) =~= m);
    }
}

/// **The other side is left alone.**  Merging a snapshot of one side keeps
/// every stored timestamp and changes nothing on the other side.
pub proof fn law_merge_side_keeps_other_side(
    m: Map<Seq<char>, ViewCloneMetric>,
    rs: Seq<Reading>,
    key: Seq<char>,
)
    ensures
        m.contains_key(key) ==> merge_side(m, rs, Side::Views).contains_key(key) && merge_side(
            m,
            rs,
            Side::Clones,
        ).contains_key(key),
        stored(merge_side(m, rs, Side::Views), key).clones == stored(m, key).clones,
        stored(merge_side(m, rs, Side::Clones), key).views == stored(m, key).views,
    decreases rs.len(),
{
    if rs.len() > 0 {
        law_merge_side_keeps_other_side(m, rs.drop_last(), key);
    }
}

/// Merges one reading into one side of the series and returns what it adds
/// to that side's all-time total.
pub fn merge_reading_side(
    series: &mut KeyedSeries<ViewCloneMetric>,
    key: &String,
    count: u64,
    uniques: u64,
    side: Side,
) -> (added: Metric)
    ensures
        final(series)@ == upsert_side(old(series)@, (Reading { key: key@, count, uniques }), side),
        added.all == step_gain_side(old(series)@, (Reading { key: key@, count, uniques }), side),
        added.unique == step_gain_side_unique(
            old(series)@,
            (Reading { key: key@, count, uniques }),
            side,
        ),
{
    let found = series.position(key);
    let before = match found {
        Some(index) => *series.value_at(index),
        None => ViewCloneMetric {
            views: Metric { all: 0, unique: 0 },
            clones: Metric { all: 0, unique: 0 },
        },
    };
    let mut metric = match side {
        Side::Views => before.views,
        Side::Clones => before.clones,
    };
    let mut added = Metric { all: 0, unique: 0 };
    if count > metric.all {
        added.all = count - metric.all;
        metric.all = count;
    }
    if uniques > metric.unique {
        added.unique = uniques - metric.unique;
        metric.unique = uniques;
    }
    let after = match side {
        Side::Views => ViewCloneMetric { views: metric, clones: before.clones },
        Side::Clones => ViewCloneMetric { views: before.views, clones: metric },
    };
    match found {
        Some(index) => series.set_value(index, after),
        None => series.push_new(key.clone(), after),
    }
    added
}

/// One side's all-time total still fits in 64 bits once it has advanced by
/// the snapshot's gain.
pub open spec fn side_fits(
    total: Metric,
    m: Map<Seq<char>, ViewCloneMetric>,
    rs: Seq<Reading>,
    side: Side,
) -> bool {
    &&& total.all + gain_side(m, rs, side) <= u64::MAX
    &&& total.unique + gain_side_unique(m, rs, side) <= u64::MAX
}

/// One side's all-time total advanced by the snapshot's gain.
pub open spec fn advanced_side(
    total: Metric,
    m: Map<Seq<char>, ViewCloneMetric>,
    rs: Seq<Reading>,
    side: Side,
) -> Metric {
    Metric {
        all: (total.all + gain_side(m, rs, side)) as u64,
        unique: (total.unique + gain_side_unique(m, rs, side)) as u64,
    }
}

/// Merges a snapshot of one side of a series that feeds an all-time total,
/// watching the total: returns the advanced total, or `None` as soon as it
/// would pass 64 bits.  After `None` the series holds a part of the snapshot
/// and is fit only to be thrown away.
pub fn merge_side_exact_checked<P: SeriesPoint>(
    series: &mut KeyedSeries<ViewCloneMetric>,
    points: &Vec<P>,
    side: Side,
    total: Metric,
) -> (next_total: Option<Metric>)
    ensures
        side_fits(total, old(series)@, readings(points@), side) ==> next_total == Some(
            advanced_side(total, old(series)@, readings(points@), side),
        ) && final(series)@ == merge_side(old(series)@, readings(points@), side),
        !side_fits(total, old(series)@, readings(points@), side) ==> next_total is None,
{
    let ghost start = series@;
    let ghost all = readings(points@);
    let mut running = total;
    let mut i: usize = 0;
    proof {
        assert(all.take(0) =~= Seq::<Reading>::empty());
    }
    while i < points.len()
        invariant
            i <= points.len(),
            all == readings(points@),
            all.len() == points.len(),
            start == old(series)@,
            series@ == merge_side(start, all.take(i as int), side),
            running.all == total.all + gain_side(start, all.take(i as int), side),
            running.unique == total.unique + gain_side_unique(start, all.take(i as int), side),
        decreases points.len() - i,
    {
        let point = &points[i];
        proof {
            lemma_gain_side_monotonic(start, all, side, i + 1);
            assert(all.take(i + 1).drop_last() =~= all.take(i as int));
            assert(all.take(i + 1).last() == points@[i as int].reading());
        }
        let added = merge_reading_side(series, point.key(), point.count(), point.uniques(), side);
        assert(running.all + added.all == total.all + gain_side(start, all.take(i + 1), side));
        assert(running.unique + added.unique == total.unique + gain_side_unique(
            start,
            all.take(i + 1),
            side,
        ));
        if added.all > u64::MAX - running.all || added.unique > u64::MAX - running.unique {
            return None;
        }
        running.all = running.all + added.all;
        running.unique = running.unique + added.unique;
        i += 1;
    }
    proof {
        assert(all.take(i as int) =~= all);
    }
    Some(running)
}

/// Merges a snapshot of one side of a series that feeds an all-time total
/// (the hourly series), and returns that side's total as it stands
/// afterwards.
///
/// The caller owes that the advanced total still fits in 64 bits.
pub fn merge_side_exact<P: SeriesPoint>(
    series: &mut KeyedSeries<ViewCloneMetric>,
    points: &Vec<P>,
    side: Side,
    total: Metric,
) -> (next_total: Metric)
    requires
        side_fits(total, old(series)@, readings(points@), side),
    ensures
        final(series)@ == merge_side(old(series)@, readings(points@), side),
        next_total == advanced_side(total, old(series)@, readings(points@), side),
        next_total.all >= total.all,
        next_total.unique >= total.unique,
{
    proof {
        lemma_gain_side_monotonic(series@, readings(points@), side, 0);
    }
    match merge_side_exact_checked(series, points, side, total) {
        Some(next_total) => next_total,
        None => total,
    }
}

/// Merges a snapshot of one side of a windowed series (the weekly series):
/// the same maximum-upsert, feeding no total.
pub fn merge_side_windowed<P: SeriesPoint>(
    series: &mut KeyedSeries<ViewCloneMetric>,
    points: &Vec<P>,
    side: Side,
)
    ensures
        final(series)@ == merge_side(old(series)@, readings(points@), side),
{
    let ghost start = series@;
    let ghost all = readings(points@);
    let mut i: usize = 0;
    proof {
        assert(all.take(0) =~= Seq::<Reading>::empty());
    }
    while i < points.len()
        invariant
            i <= points.len(),
            all == readings(points@),
            all.len() == points.len(),
            series@ == merge_side(start, all.take(i as int), side),
        decreases points.len() - i,
    {
        let point = &points[i];
        proof {
            assert(all.take(i + 1).drop_last() =~= all.take(i as int));
            assert(all.take(i + 1).last() == points@[i as int].reading());
        }
        let _ = merge_reading_side(series, point.key(), point.count(), point.uniques(), side);
        i += 1;
    }
    proof {
        assert(all.take(i as int) =~= all);
    }
}

/// The series after a snapshot of views and then a snapshot of clones are
/// merged, each on its own side.
pub open spec fn merge_both(
    m: Map<Seq<char>, ViewCloneMetric>,
    views: Seq<Reading>,
    clones: Seq<Reading>,
) -> Map<Seq<char>, ViewCloneMetric> {
    merge_side(merge_side(m, views, Side::Views), clones, Side::Clones)
}

/// **Idempotence, side by side.**  Merging the same snapshots of views and
/// of clones a second time changes nothing and adds nothing to either
/// side's total.
pub proof fn law_merge_both_idempotent(
    m: Map<Seq<char>, ViewCloneMetric>,
    views: Seq<Reading>,
    clones: Seq<Reading>,
)
    ensures
        merge_side(merge_both(m, views, clones), views, Side::Views) == merge_both(m, views, clones),
        merge_both(merge_both(m, views, clones), views, clones) == merge_both(m, views, clones),
        gain_side(merge_both(m, views, clones), views, Side::Views) == 0,
        gain_side_unique(merge_both(m, views, clones), views, Side::Views) == 0,
        gain_side(merge_both(m, views, clones), clones, Side::Clones) == 0,
        gain_side_unique(merge_both(m, views, clones), clones, Side::Clones) == 0,
{
    let viewed = merge_side(m, views, Side::Views);
    let both = merge_both(m, views, clones);
    assert forall|i: int| 0 <= i < views.len() implies covers_side(
        both,
        #[trigger] views[i],
        Side::Views,
    ) by {
        lemma_merge_side_covers(m, views, Side::Views, i);
        law_merge_side_keeps_other_side(viewed, clones, views[i].key);
    }
    lemma_covered_side_is_absorbed(both, views, Side::Views);
    law_merge_side_idempotent(viewed, clones, Side::Clones);
}

} // verus!
