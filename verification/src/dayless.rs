//! The series reconciler for dayless aggregates: referring sites and content
//! paths, which the server reports as live fourteen-day sums without any
//! timestamp.
//!
//! Each key has a timeline of its own.  An observation of a key is compared
//! with the key's latest entry; its signed change is recorded as read, and
//! only an increase is credited to the key's all-time total.  A key that is
//! observed for the first time starts a timeline with a baseline entry,
//! whatever other keys are tracked already.  A tracked key that a snapshot
//! does not name has left the window: it is observed with an empty window,
//! so that it starts anew, credited its whole window, when it returns.

use vstd::prelude::*;
use crate::reconcile::{readings, Reading, SeriesPoint};
use crate::report_models::{Metric, QuantifiableEvents, Timeline, TimelineEntry, TimelineView};
use crate::series::{
    distinct_keys, lemma_map_of_index, lemma_map_of_push, lemma_zipped_pairs, map_of, map_of_pairs,
    pair_views, KeyedSeries,
};

verus! {

/// The timeline kept for a key; the empty timeline for a key never observed.
pub open spec fn timeline_of(m: Map<Seq<char>, TimelineView>, key: Seq<char>) -> TimelineView {
    if m.contains_key(key) {
        m[key]
    } else {
        TimelineView::empty()
    }
}

/// The entry that observing one key at `now` appends to its timeline, if the
/// observation is taken.
pub open spec fn step_entry(
    m: Map<Seq<char>, TimelineView>,
    r: Reading,
    now: u64,
    low_confidence: bool,
) -> Option<TimelineEntry> {
    timeline_of(m, r.key).estimate(now, r.count, r.uniques, low_confidence)
}

/// The timelines after one key is observed at `now`.
pub open spec fn observe(
    m: Map<Seq<char>, TimelineView>,
    r: Reading,
    now: u64,
    low_confidence: bool,
) -> Map<Seq<char>, TimelineView> {
    m.insert(r.key, timeline_of(m, r.key).record(now, r.count, r.uniques, low_confidence))
}

/// What observing one key adds to the all-time count over all keys.
pub open spec fn step_credit(
    m: Map<Seq<char>, TimelineView>,
    r: Reading,
    now: u64,
    low_confidence: bool,
) -> nat {
    match step_entry(m, r, now, low_confidence) {
        Some(entry) => entry.credit(),
        None => 0,
    }
}

/// What observing one key adds to the all-time count of unique visitors
/// over all keys.
pub open spec fn step_credit_unique(
    m: Map<Seq<char>, TimelineView>,
    r: Reading,
    now: u64,
    low_confidence: bool,
) -> nat {
    match step_entry(m, r, now, low_confidence) {
        Some(entry) => entry.credit_unique(),
        None => 0,
    }
}


/// The timelines after the entries of a snapshot, read at `now`, are
/// observed one after the other.
pub open spec fn observe_named(
    m: Map<Seq<char>, TimelineView>,
    rs: Seq<Reading>,
    now: u64,
    low_confidence: bool,
) -> Map<Seq<char>, TimelineView>
    decreases rs.len(),
{
    if rs.len() == 0 {
        m
    } else {
        observe(observe_named(m, rs.drop_last(), now, low_confidence), rs.last(), now, low_confidence)
    }
}

/// Some entry of the snapshot names the key.
pub open spec fn names(rs: Seq<Reading>, key: Seq<char>) -> bool {
    exists|i: int| 0 <= i < rs.len() && (#[trigger] rs[i]).key == key
}

/// The timelines after every key that the snapshot does not name is observed
/// with an empty window: what the key had in the window has left it.
pub open spec fn settle(
    m: Map<Seq<char>, TimelineView>,
    rs: Seq<Reading>,
    now: u64,
    low_confidence: bool,
) -> Map<Seq<char>, TimelineView> {
    Map::new(
        |k: Seq<char>| m.contains_key(k),
        |k: Seq<char>|
            if names(rs, k) {
                m[k]
            } else {
                m[k].record(now, 0, 0, low_confidence)
            },
    )
}

/// The timelines after a whole snapshot, read at `now`, is observed: every
/// key that it names with the window that it reports, and every other
/// tracked key with an empty window.
pub open spec fn observe_all(
    m: Map<Seq<char>, TimelineView>,
    rs: Seq<Reading>,
    now: u64,
    low_confidence: bool,
) -> Map<Seq<char>, TimelineView> {
    settle(observe_named(m, rs, now, low_confidence), rs, now, low_confidence)
}

/// What observing a whole snapshot adds to the all-time count over all keys.
/// Empty windows add nothing.
pub open spec fn credit(
    m: Map<Seq<char>, TimelineView>,
    rs: Seq<Reading>,
    now: u64,
    low_confidence: bool,
) -> nat
    decreases rs.len(),
{
    if rs.len() == 0 {
        0
    } else {
        credit(m, rs.drop_last(), now, low_confidence) + step_credit(
            observe_named(m, rs.drop_last(), now, low_confidence),
            rs.last(),
            now,
            low_confidence,
        )
    }
}

/// What observing a whole snapshot adds to the all-time count of unique
/// visitors over all keys.
pub open spec fn credit_unique(
    m: Map<Seq<char>, TimelineView>,
    rs: Seq<Reading>,
    now: u64,
    low_confidence: bool,
) -> nat
    decreases rs.len(),
{
    if rs.len() == 0 {
        0
    } else {
        credit_unique(m, rs.drop_last(), now, low_confidence) + step_credit_unique(
            observe_named(m, rs.drop_last(), now, low_confidence),
            rs.last(),
            now,
            low_confidence,
        )
    }
}

/// The all-time pair kept for a key; nothing for a key that has none.
pub open spec fn pair_of(a: Map<Seq<char>, QuantifiableEvents>, key: Seq<char>) -> QuantifiableEvents {
    if a.contains_key(key) {
        a[key]
    } else {
        QuantifiableEvents { amount: 0, amount_unique: 0 }
    }
}

/// The all-time pairs after one key is credited.
pub open spec fn credit_pair(
    a: Map<Seq<char>, QuantifiableEvents>,
    key: Seq<char>,
    amount: nat,
    amount_unique: nat,
) -> Map<Seq<char>, QuantifiableEvents> {
    a.insert(
        key,
        QuantifiableEvents {
            amount: (pair_of(a, key).amount + amount) as u64,
            amount_unique: (pair_of(a, key).amount_unique + amount_unique) as u64,
        },
    )
}

/// The all-time pairs of the keys after a whole snapshot is observed: the
/// pair of every key that the snapshot names has advanced by what the key's
/// observation was credited, and no other pair has changed.
pub open spec fn credited_pairs(
    a: Map<Seq<char>, QuantifiableEvents>,
    m: Map<Seq<char>, TimelineView>,
    rs: Seq<Reading>,
    now: u64,
    low_confidence: bool,
) -> Map<Seq<char>, QuantifiableEvents>
    decreases rs.len(),
{
    if rs.len() == 0 {
        a
    } else {
        credit_pair(
            credited_pairs(a, m, rs.drop_last(), now, low_confidence),
            rs.last().key,
            step_credit(observe_named(m, rs.drop_last(), now, low_confidence), rs.last(), now, low_confidence),
            step_credit_unique(
                observe_named(m, rs.drop_last(), now, low_confidence),
                rs.last(),
                now,
                low_confidence,
            ),
        )
    }
}

/// Every all-time pair still fits in 64 bits at every step of observing the
/// snapshot.
pub open spec fn pairs_fit(
    a: Map<Seq<char>, QuantifiableEvents>,
    m: Map<Seq<char>, TimelineView>,
    rs: Seq<Reading>,
    now: u64,
    low_confidence: bool,
) -> bool
    decreases rs.len(),
{
    if rs.len() == 0 {
        true
    } else {
        let before = credited_pairs(a, m, rs.drop_last(), now, low_confidence);
        let state = observe_named(m, rs.drop_last(), now, low_confidence);
        &&& pairs_fit(a, m, rs.drop_last(), now, low_confidence)
        &&& pair_of(before, rs.last().key).amount + step_credit(state, rs.last(), now, low_confidence)
            <= u64::MAX
        &&& pair_of(before, rs.last().key).amount_unique + step_credit_unique(
            state,
            rs.last(),
            now,
            low_confidence,
        ) <= u64::MAX
    }
}

/// No pair of the first map is missing from the second or lower there.
pub open spec fn never_lower(
    before: Map<Seq<char>, QuantifiableEvents>,
    after: Map<Seq<char>, QuantifiableEvents>,
) -> bool {
    forall|k: Seq<char>| #[trigger]
        before.contains_key(k) ==> after.contains_key(k) && after[k].amount >= before[k].amount
            && after[k].amount_unique >= before[k].amount_unique
}

/// Where the pairs fit for a whole snapshot, they fit for every part of it.
pub proof fn lemma_pairs_fit_prefix(
    a: Map<Seq<char>, QuantifiableEvents>,
    m: Map<Seq<char>, TimelineView>,
    rs: Seq<Reading>,
    now: u64,
    low_confidence: bool,
    n: int,
)
    requires
        0 <= n <= rs.len(),
        pairs_fit(a, m, rs, now, low_confidence),
    ensures
        pairs_fit(a, m, rs.take(n), now, low_confidence),
    decreases rs.len(),
{
    if n == rs.len() {
        assert(rs.take(n) =~= rs);
    } else {
        lemma_pairs_fit_prefix(a, m, rs.drop_last(), now, low_confidence, n);
        assert(rs.drop_last().take(n) =~= rs.take(n));
    }
}

/// **No key's all-time pair ever falls.**  Where the pairs fit, observing a
/// snapshot leaves every key's all-time pair in place and at least where it
/// was, whatever the windows have shrunk to.
pub proof fn law_pairs_never_fall(
    a: Map<Seq<char>, QuantifiableEvents>,
    m: Map<Seq<char>, TimelineView>,
    rs: Seq<Reading>,
    now: u64,
    low_confidence: bool,
)
    requires
        pairs_fit(a, m, rs, now, low_confidence),
    ensures
        never_lower(a, credited_pairs(a, m, rs, now, low_confidence)),
    decreases rs.len(),
{
    if rs.len() > 0 {
        law_pairs_never_fall(a, m, rs.drop_last(), now, low_confidence);
    }
}

/// Records one observation of `key`, read at `now`, in the key's timeline,
/// which is started if the key is new.  Returns the entry that was appended,
/// or `None` where the observation was turned away.
pub fn record_observation(
    series: &mut KeyedSeries<Timeline>,
    key: &String,
    now: u64,
    count: u64,
    uniques: u64,
    low_confidence: bool,
) -> (entry: Option<TimelineEntry>)
    ensures
        final(series)@ == observe(
            old(series)@,
            (Reading { key: key@, count, uniques }),
            now,
            low_confidence,
        ),
        entry == step_entry(old(series)@, (Reading { key: key@, count, uniques }), now, low_confidence),
{
    match series.position(key) {
        Some(index) => {
            let mut timeline = series.replace_value(index, Timeline::default());
            let entry = timeline.record(now, count, uniques, low_confidence);
            let ghost recorded = timeline@;
            series.set_value(index, timeline);
            proof {
                assert(series@ =~= old(series)@.insert(key@, recorded));
            }
            entry
        },
        None => {
            let mut timeline = Timeline::default();
            let entry = timeline.record(now, count, uniques, low_confidence);
            series.push_new(key.clone(), timeline);
            entry
        },
    }
}

/// **A shrinking window never lowers a total.**  Observing a key leaves
/// every key's running total at least where it was, and leaves the timelines
/// of all other keys untouched.
pub proof fn law_observe_never_lowers(
    m: Map<Seq<char>, TimelineView>,
    r: Reading,
    now: u64,
    low_confidence: bool,
    key: Seq<char>,
)
    ensures
        m.contains_key(key) ==> observe(m, r, now, low_confidence).contains_key(key),
        timeline_of(observe(m, r, now, low_confidence), key).metrics_total.all >= timeline_of(
            m,
            key,
        ).metrics_total.all,
        timeline_of(observe(m, r, now, low_confidence), key).metrics_total.unique >= timeline_of(
            m,
            key,
        ).metrics_total.unique,
        key != r.key ==> timeline_of(observe(m, r, now, low_confidence), key) == timeline_of(m, key),
{
}

/// Observing the entries of a snapshot leaves every key's running total at
/// least where it was, forgets no key, and leaves the keys that it does not
/// name untouched.
pub proof fn lemma_observe_named(
    m: Map<Seq<char>, TimelineView>,
    rs: Seq<Reading>,
    now: u64,
    low_confidence: bool,
    key: Seq<char>,
)
    ensures
        m.contains_key(key) ==> observe_named(m, rs, now, low_confidence).contains_key(key),
        timeline_of(observe_named(m, rs, now, low_confidence), key).metrics_total.all >= timeline_of(
            m,
            key,
        ).metrics_total.all,
        timeline_of(observe_named(m, rs, now, low_confidence), key).metrics_total.unique
            >= timeline_of(m, key).metrics_total.unique,
        !names(rs, key) ==> observe_named(m, rs, now, low_confidence).contains_key(key)
            == m.contains_key(key) && timeline_of(observe_named(m, rs, now, low_confidence), key)
            == timeline_of(m, key),
        names(rs, key) ==> observe_named(m, rs, now, low_confidence).contains_key(key),
    decreases rs.len(),
{
    if rs.len() > 0 {
        let front = rs.drop_last();
        lemma_observe_named(m, front, now, low_confidence, key);
        law_observe_never_lowers(
            observe_named(m, front, now, low_confidence),
            rs.last(),
            now,
            low_confidence,
            key,
        );
        if !names(rs, key) {
            assert(rs[rs.len() - 1].key != key);
            if names(front, key) {
                let i = choose|i: int| 0 <= i < front.len() && (#[trigger] front[i]).key == key;
                assert(rs[i].key == key);
            }
        } else {
            let i = choose|i: int| 0 <= i < rs.len() && (#[trigger] rs[i]).key == key;
            if i < front.len() {
                assert(front[i].key == key);
            }
        }
    }
}

/// **Monotonicity.**  Observing a whole snapshot leaves every key's running
/// total at least where it was, and forgets no key.
pub proof fn law_observe_all_never_lowers(
    m: Map<Seq<char>, TimelineView>,
    rs: Seq<Reading>,
    now: u64,
    low_confidence: bool,
    key: Seq<char>,
)
    ensures
        observe_all(m, rs, now, low_confidence).contains_key(key) == (m.contains_key(key) || names(
            rs,
            key,
        )),
        timeline_of(observe_all(m, rs, now, low_confidence), key).metrics_total.all >= timeline_of(
            m,
            key,
        ).metrics_total.all,
        timeline_of(observe_all(m, rs, now, low_confidence), key).metrics_total.unique >= timeline_of(
            m,
            key,
        ).metrics_total.unique,
{
    lemma_observe_named(m, rs, now, low_confidence, key);
}

/// **A key that the snapshot does not name is observed with an empty
/// window.**  Its timeline gets the entry of a window of nothing, which
/// credits nothing; a key that is not tracked stays untracked.
pub proof fn law_absent_key_is_observed_empty(
    m: Map<Seq<char>, TimelineView>,
    rs: Seq<Reading>,
    now: u64,
    low_confidence: bool,
    key: Seq<char>,
)
    requires
        !names(rs, key),
    ensures
        observe_all(m, rs, now, low_confidence).contains_key(key) == m.contains_key(key),
        m.contains_key(key) ==> observe_all(m, rs, now, low_confidence)[key] == m[key].record(
            now,
            0,
            0,
            low_confidence,
        ),
{
    lemma_observe_named(m, rs, now, low_confidence, key);
}

/// **A key that returns starts anew.**  Once a key has been observed with an
/// empty window, its next observation is credited the whole window that it
/// reports, like the baseline of a key that is seen for the first time.
pub proof fn law_returning_key_is_a_baseline(
    timeline: TimelineView,
    left_at: u64,
    now: u64,
    count: u64,
    uniques: u64,
    low_confidence: bool,
)
    requires
        timeline.estimate(left_at, 0, 0, low_confidence) is Some,
        left_at <= now,
        count <= i64::MAX,
        uniques <= i64::MAX,
    ensures
        ({
            let gone = timeline.record(left_at, 0, 0, low_confidence);
            &&& gone.metrics_total == timeline.metrics_total
            &&& gone.draft(now, count, uniques) is Some
            &&& gone.draft(now, count, uniques)->Some_0.change_a == count
            &&& gone.draft(now, count, uniques)->Some_0.change_u == uniques
            &&& gone.draft(now, count, uniques)->Some_0.credit() == count
            &&& gone.draft(now, count, uniques)->Some_0.credit_unique() == uniques
        }),
{
    let gone = timeline.record(left_at, 0, 0, low_confidence);
    let entry = timeline.estimate(left_at, 0, 0, low_confidence)->Some_0;
    assert(gone.metric_timeline == timeline.metric_timeline.push(entry));
    assert(gone.metric_timeline.last() == entry);
    assert(entry.views_a == 0 && entry.views_u == 0 && entry.timestamp == left_at);
}

/// One poll of a dayless endpoint: what was read, and when.
pub struct Poll {
    pub readings: Seq<Reading>,
    pub now: u64,
    pub low_confidence: bool,
}

/// The timelines after a sequence of polls is observed, one after the other.
pub open spec fn observe_polls(m: Map<Seq<char>, TimelineView>, polls: Seq<Poll>) -> Map<
    Seq<char>,
    TimelineView,
>
    decreases polls.len(),
{
    if polls.len() == 0 {
        m
    } else {
        observe_all(
            observe_polls(m, polls.drop_last()),
            polls.last().readings,
            polls.last().now,
            polls.last().low_confidence,
        )
    }
}

/// **Monotonicity over any sequence of polls.**  Whatever is read at
/// whatever times, every key's all-time pair after the first `n` polls is at
/// least what it was at the start and at most what it is after all of them,
/// and no key is ever forgotten.
pub proof fn law_all_time_never_decreases(
    m: Map<Seq<char>, TimelineView>,
    polls: Seq<Poll>,
    n: int,
    key: Seq<char>,
)
    requires
        0 <= n <= polls.len(),
    ensures
        m.contains_key(key) ==> observe_polls(m, polls.take(n)).contains_key(key),
        observe_polls(m, polls.take(n)).contains_key(key) ==> observe_polls(m, polls).contains_key(
            key,
        ),
        timeline_of(m, key).metrics_total.all <= timeline_of(
            observe_polls(m, polls.take(n)),
            key,
        ).metrics_total.all <= timeline_of(observe_polls(m, polls), key).metrics_total.all,
        timeline_of(m, key).metrics_total.unique <= timeline_of(
            observe_polls(m, polls.take(n)),
            key,
        ).metrics_total.unique <= timeline_of(observe_polls(m, polls), key).metrics_total.unique,
    decreases polls.len() - n, n,
{
    if n == polls.len() {
        assert(polls.take(n) =~= polls);
        if n > 0 {
            law_all_time_never_decreases(m, polls.drop_last(), n - 1, key);
            assert(polls.drop_last().take(n - 1) =~= polls.drop_last());
            law_observe_all_never_lowers(
                observe_polls(m, polls.drop_last()),
                polls.last().readings,
                polls.last().now,
                polls.last().low_confidence,
                key,
            );
        }
    } else {
        law_all_time_never_decreases(m, polls, n + 1, key);
        let longer = polls.take(n + 1);
        assert(longer.drop_last() =~= polls.take(n));
        law_observe_all_never_lowers(
            observe_polls(m, polls.take(n)),
            longer.last().readings,
            longer.last().now,
            longer.last().low_confidence,
            key,
        );
        law_all_time_never_decreases(m, polls.take(n), n, key);
    }
}

/// The credit of a part of a snapshot is at most the credit of the whole.
pub proof fn lemma_credit_monotonic(
    m: Map<Seq<char>, TimelineView>,
    rs: Seq<Reading>,
    now: u64,
    low_confidence: bool,
    n: int,
)
    requires
        0 <= n <= rs.len(),
    ensures
        credit(m, rs.take(n), now, low_confidence) <= credit(m, rs, now, low_confidence),
        credit_unique(m, rs.take(n), now, low_confidence) <= credit_unique(m, rs, now, low_confidence),
    decreases rs.len() - n,
{
    if n == rs.len() {
        assert(rs.take(n) =~= rs);
    } else {
        lemma_credit_monotonic(m, rs, now, low_confidence, n + 1);
        let longer = rs.take(n + 1);
        assert(longer.drop_last() =~= rs.take(n));
        assert(credit(m, longer, now, low_confidence) == credit(m, rs.take(n), now, low_confidence)
            + step_credit(
            observe_named(m, rs.take(n), now, low_confidence),
            longer.last(),
            now,
            low_confidence,
        ));
        assert(credit_unique(m, longer, now, low_confidence) == credit_unique(
            m,
            rs.take(n),
            now,
            low_confidence,
        ) + step_credit_unique(
            observe_named(m, rs.take(n), now, low_confidence),
            longer.last(),
            now,
            low_confidence,
        ));
    }
}

/// The all-time pair over all keys still fits in 64 bits once it has
/// advanced by what the snapshot's observations are credited.
pub open spec fn credit_fits(
    total: QuantifiableEvents,
    m: Map<Seq<char>, TimelineView>,
    rs: Seq<Reading>,
    now: u64,
    low_confidence: bool,
) -> bool {
    &&& total.amount + credit(m, rs, now, low_confidence) <= u64::MAX
    &&& total.amount_unique + credit_unique(m, rs, now, low_confidence) <= u64::MAX
}

/// The all-time pair over all keys, advanced by what the snapshot's
/// observations are credited.
pub open spec fn credited_total(
    total: QuantifiableEvents,
    m: Map<Seq<char>, TimelineView>,
    rs: Seq<Reading>,
    now: u64,
    low_confidence: bool,
) -> QuantifiableEvents {
    QuantifiableEvents {
        amount: (total.amount + credit(m, rs, now, low_confidence)) as u64,
        amount_unique: (total.amount_unique + credit_unique(m, rs, now, low_confidence)) as u64,
    }
}

/// Observes a whole snapshot of dayless aggregates, watching the all-time
/// pair over all keys: returns the advanced pair, or `None` as soon as it
/// would pass 64 bits.  After `None` the timelines hold a part of the

/// The all-time pair over all keys and every key's own pair still fit in 64
/// bits once the snapshot is observed.
pub open spec fn dayless_fits(
    total: QuantifiableEvents,
    a: Map<Seq<char>, QuantifiableEvents>,
    m: Map<Seq<char>, TimelineView>,
    rs: Seq<Reading>,
    now: u64,
    low_confidence: bool,
) -> bool {
    &&& credit_fits(total, m, rs, now, low_confidence)
    &&& pairs_fit(a, m, rs, now, low_confidence)
}

/// Whether some entry of the snapshot names the key.
pub fn is_named<P: SeriesPoint>(points: &Vec<P>, key: &String) -> (named: bool)
    ensures
        named == names(readings(points@), key@),
{
    let mut i: usize = 0;
    while i < points.len()
        invariant
            i <= points.len(),
            forall|j: int| 0 <= j < i ==> (#[trigger] readings(points@)[j]).key != key@,
        decreases points.len() - i,
    {
        if *points[i].key() == *key {
            assert(readings(points@)[i as int].key == key@);
            return true;
        }
        i += 1;
    }
    false
}

/// Observes with an empty window, read at `now`, every tracked key that the
/// snapshot does not name.
pub fn settle_absent<P: SeriesPoint>(
    series: &mut KeyedSeries<Timeline>,
    points: &Vec<P>,
    now: u64,
    low_confidence: bool,
)
    ensures
        final(series)@ == settle(old(series)@, readings(points@), now, low_confidence),
{
    let count = series.len();
    let ghost rs = readings(points@);
    let ghost start = series@;
    let ghost keys = series.keys();
    let ghost first = series.values();
    let mut i: usize = 0;
    while i < count
        invariant
            i <= count,
            count == keys.len(),
            rs == readings(points@),
            series.keys() == keys,
            series.values().len() == count,
            first.len() == count,
            series.well_formed(),
            forall|j: int|
                0 <= j < count ==> (#[trigger] series.values()[j]) == if j < i && !names(rs, keys[j]) {
                    first[j].record(now, 0, 0, low_confidence)
                } else {
                    first[j]
                },
        decreases count - i,
    {
        let named = is_named(points, series.key_at(i));
        if !named {
            let mut timeline = series.replace_value(i, Timeline::default());
            let _ = timeline.record(now, 0, 0, low_confidence);
            series.set_value(i, timeline);
        }
        i += 1;
    }
    proof {
        let settled = settle(start, rs, now, low_confidence);
        assert(start == map_of(keys, first));
        assert forall|k: Seq<char>| series@.contains_key(k) <==> settled.contains_key(k) by {}
        assert forall|k: Seq<char>| series@.contains_key(k) implies series@[k] == settled[k] by {
            let j = keys.index_of(k);
            assert(0 <= j < keys.len() && keys[j] == k);
            lemma_map_of_index(keys, first, j);
            lemma_map_of_index(keys, series.values(), j);
        }
        assert(series@ =~= settled);
    }
}

/// Observes a whole snapshot of dayless aggregates, read at `now`: every key
/// that it names with the window that it reports, and every other tracked
/// key with an empty window.
pub fn observe_snapshot<P: SeriesPoint>(
    series: &mut KeyedSeries<Timeline>,
    points: &Vec<P>,
    now: u64,
    low_confidence: bool,
)
    ensures
        final(series)@ == observe_all(old(series)@, readings(points@), now, low_confidence),
{
    let ghost start = series@;
    let ghost all = readings(points@);
    let mut i: usize = 0;
    proof {
        assert(all.take(0) =~= Seq::<Reading>::empty());
    }
    while i < points.len()
        invariant
            i <= points.len(),
            all == readings(points@),
            all.len() == points.len(),
            series@ == observe_named(start, all.take(i as int), now, low_confidence),
        decreases points.len() - i,
    {
        let point = &points[i];
        proof {
            assert(all.take(i + 1).drop_last() =~= all.take(i as int));
            assert(all.take(i + 1).last() == points@[i as int].reading());
        }
        let _ = record_observation(series, point.key(), now, point.count(), point.uniques(), low_confidence);
        i += 1;
    }
    proof {
        assert(all.take(i as int) =~= all);
    }
    settle_absent(series, points, now, low_confidence);
}

/// Credits one key's all-time pair, if the pair still fits in 64 bits
/// afterwards, and says whether it did.
pub fn credit_pair_checked(
    pairs: &mut KeyedSeries<QuantifiableEvents>,
    key: &String,
    credit: QuantifiableEvents,
) -> (credited: bool)
    ensures
        credited == (pair_of(old(pairs)@, key@).amount + credit.amount <= u64::MAX && pair_of(
            old(pairs)@,
            key@,
        ).amount_unique + credit.amount_unique <= u64::MAX),
        credited ==> final(pairs)@ == credit_pair(
            old(pairs)@,
            key@,
            credit.amount as nat,
            credit.amount_unique as nat,
        ),
        !credited ==> final(pairs)@ == old(pairs)@,
{
    let found = pairs.position(key);
    let stored = match found {
        Some(index) => *pairs.value_at(index),
        None => QuantifiableEvents { amount: 0, amount_unique: 0 },
    };
    if credit.amount > u64::MAX - stored.amount || credit.amount_unique > u64::MAX
        - stored.amount_unique {
        return false;
    }
    let next = QuantifiableEvents {
        amount: stored.amount + credit.amount,
        amount_unique: stored.amount_unique + credit.amount_unique,
    };
    match found {
        Some(index) => pairs.set_value(index, next),
        None => pairs.push_new(key.clone(), next),
    }
    true
}

/// Observes a whole snapshot of dayless aggregates, watching the all-time
/// pairs: credits every named key's own pair and the pair over all keys with
/// what the key's observation is credited.  Returns the advanced pair over
/// all keys, or `None` as soon as a pair would pass 64 bits.  After `None`
/// the timelines and the pairs hold a part of the snapshot and are fit only
/// to be thrown away.
pub fn merge_dayless_checked<P: SeriesPoint>(
    series: &mut KeyedSeries<Timeline>,
    pairs: &mut KeyedSeries<QuantifiableEvents>,
    points: &Vec<P>,
    now: u64,
    low_confidence: bool,
    total: QuantifiableEvents,
) -> (next_total: Option<QuantifiableEvents>)
    ensures
        dayless_fits(total, old(pairs)@, old(series)@, readings(points@), now, low_confidence)
            ==> next_total == Some(
            credited_total(total, old(series)@, readings(points@), now, low_confidence),
        ) && final(series)@ == observe_all(old(series)@, readings(points@), now, low_confidence)
            && final(pairs)@ == credited_pairs(
            old(pairs)@,
            old(series)@,
            readings(points@),
            now,
            low_confidence,
        ),
        !dayless_fits(total, old(pairs)@, old(series)@, readings(points@), now, low_confidence)
            ==> next_total is None,
{
    let ghost start = series@;
    let ghost first = pairs@;
    let ghost all = readings(points@);
    let mut running = total;
    let mut i: usize = 0;
    proof {
        assert(all.take(0) =~= Seq::<Reading>::empty());
    }
    while i < points.len()
        invariant
            i <= points.len(),
            all == readings(points@),
            all.len() == points.len(),
            start == old(series)@,
            first == old(pairs)@,
            series@ == observe_named(start, all.take(i as int), now, low_confidence),
            pairs@ == credited_pairs(first, start, all.take(i as int), now, low_confidence),
            pairs_fit(first, start, all.take(i as int), now, low_confidence),
            running.amount == total.amount + credit(start, all.take(i as int), now, low_confidence),
            running.amount_unique == total.amount_unique + credit_unique(
                start,
                all.take(i as int),
                now,
                low_confidence,
            ),
        decreases points.len() - i,
    {
        let point = &points[i];
        proof {
            lemma_credit_monotonic(start, all, now, low_confidence, i + 1);
            assert(all.take(i + 1).drop_last() =~= all.take(i as int));
            assert(all.take(i + 1).last() == points@[i as int].reading());
            if pairs_fit(first, start, all, now, low_confidence) {
                lemma_pairs_fit_prefix(first, start, all, now, low_confidence, i + 1);
            }
        }
        let ghost before = series@;
        let entry = record_observation(
            series,
            point.key(),
            now,
            point.count(),
            point.uniques(),
            low_confidence,
        );
        assert(credit(start, all.take(i + 1), now, low_confidence) == credit(
            start,
            all.take(i as int),
            now,
            low_confidence,
        ) + step_credit(before, all.take(i + 1).last(), now, low_confidence));
        assert(credit_unique(start, all.take(i + 1), now, low_confidence) == credit_unique(
            start,
            all.take(i as int),
            now,
            low_confidence,
        ) + step_credit_unique(before, all.take(i + 1).last(), now, low_confidence));
        let credited = match entry {
            Some(entry) => entry.credited(),
            None => QuantifiableEvents { amount: 0, amount_unique: 0 },
        };
        if !credit_pair_checked(pairs, point.key(), credited) {
            return None;
        }
        if credited.amount > u64::MAX - running.amount || credited.amount_unique > u64::MAX
            - running.amount_unique {
            return None;
        }
        running.amount = running.amount + credited.amount;
        running.amount_unique = running.amount_unique + credited.amount_unique;
        i += 1;
    }
    proof {
        assert(all.take(i as int) =~= all);
    }
    settle_absent(series, points, now, low_confidence);
    Some(running)
}

/// Observes a whole snapshot of dayless aggregates, read at `now`, and
/// credits the all-time pairs.  Returns the all-time pair over all keys as it
/// stands afterwards.
///
/// The caller owes that every pair still fits in 64 bits.
pub fn merge_dayless<P: SeriesPoint>(
    series: &mut KeyedSeries<Timeline>,
    pairs: &mut KeyedSeries<QuantifiableEvents>,
    points: &Vec<P>,
    now: u64,
    low_confidence: bool,
    total: QuantifiableEvents,
) -> (next_total: QuantifiableEvents)
    requires
        dayless_fits(total, old(pairs)@, old(series)@, readings(points@), now, low_confidence),
    ensures
        final(series)@ == observe_all(old(series)@, readings(points@), now, low_confidence),
        final(pairs)@ == credited_pairs(
            old(pairs)@,
            old(series)@,
            readings(points@),
            now,
            low_confidence,
        ),
        never_lower(old(pairs)@, final(pairs)@),
        next_total == credited_total(total, old(series)@, readings(points@), now, low_confidence),
        next_total.amount >= total.amount,
        next_total.amount_unique >= total.amount_unique,
{
    proof {
        law_pairs_never_fall(pairs@, series@, readings(points@), now, low_confidence);
    }
    match merge_dayless_checked(series, pairs, points, now, low_confidence, total) {
        Some(next_total) => next_total,
        None => total,
    }
}

/// One count of a running total: the unique visitors, or all events.
pub open spec fn part(total: Metric, unique: bool) -> nat {
    if unique {
        total.unique as nat
    } else {
        total.all as nat
    }
}

/// The sum, over all keys, of one count of the keys' running totals.
pub open spec fn total_over(m: Map<Seq<char>, TimelineView>, unique: bool) -> nat
    decreases m.dom().len(),
    when m.dom().finite()
{
    if m.dom().len() == 0 {
        0
    } else {
        let k = m.dom().choose();
        part(m[k].metrics_total, unique) + total_over(m.remove(k), unique)
    }
}

/// The sum over all keys is the running total of any one key and the sum
/// over the others.
pub proof fn lemma_total_over_remove(m: Map<Seq<char>, TimelineView>, key: Seq<char>, unique: bool)
    requires
        m.dom().finite(),
        m.contains_key(key),
    ensures
        total_over(m, unique) == part(m[key].metrics_total, unique) + total_over(m.remove(key), unique),
    decreases m.dom().len(),
{
    let k = m.dom().choose();
    assert(m.dom().len() != 0);
    if k != key {
        lemma_total_over_remove(m.remove(k), key, unique);
        lemma_total_over_remove(m.remove(key), k, unique);
        assert(m.remove(k).remove(key) =~= m.remove(key).remove(k));
    }
}

/// A key that is new to the timelines adds its running total to the sum.
pub proof fn lemma_total_over_insert(
    m: Map<Seq<char>, TimelineView>,
    key: Seq<char>,
    timeline: TimelineView,
    unique: bool,
)
    requires
        m.dom().finite(),
        !m.contains_key(key),
    ensures
        total_over(m.insert(key, timeline), unique) == total_over(m, unique) + part(
            timeline.metrics_total,
            unique,
        ),
{
    lemma_total_over_remove(m.insert(key, timeline), key, unique);
    assert(m.insert(key, timeline).remove(key) =~= m);
}

/// The sums, over all keys, of the keys' running totals; `None` where a sum
/// passes 64 bits.
pub fn sum_timelines(timelines: &KeyedSeries<Timeline>) -> (sums: Option<Metric>)
    ensures
        total_over(timelines@, false) <= u64::MAX && total_over(timelines@, true) <= u64::MAX
            ==> sums == Some(
            Metric {
                all: total_over(timelines@, false) as u64,
                unique: total_over(timelines@, true) as u64,
            },
        ),
        total_over(timelines@, false) > u64::MAX || total_over(timelines@, true) > u64::MAX
            ==> sums is None,
{
    let count = timelines.len();
    let ghost keys = timelines.keys();
    let ghost values = timelines.values();
    let mut all: u128 = 0;
    let mut unique: u128 = 0;
    let mut i: usize = 0;
    proof {
        assert(map_of(keys.take(0), values.take(0)) =~= Map::<Seq<char>, TimelineView>::empty());
        assert(map_of(keys.take(0), values.take(0)).dom() =~= Set::<Seq<char>>::empty());
    }
    while i < count
        invariant
            i <= count,
            count == keys.len(),
            count == values.len(),
            keys == timelines.keys(),
            values == timelines.values(),
            timelines.well_formed(),
            map_of(keys.take(i as int), values.take(i as int)).dom().finite(),
            all == total_over(map_of(keys.take(i as int), values.take(i as int)), false),
            unique == total_over(map_of(keys.take(i as int), values.take(i as int)), true),
            all <= i * 0xffff_ffff_ffff_ffff,
            unique <= i * 0xffff_ffff_ffff_ffff,
        decreases count - i,
    {
        let total = timelines.value_at(i).metrics_total;
        proof {
            let done = map_of(keys.take(i as int), values.take(i as int));
            assert(keys.take(i as int).no_duplicates());
            assert(!keys.take(i as int).contains(keys[i as int])) by {
                if keys.take(i as int).contains(keys[i as int]) {
                    let j = choose|j: int|
                        0 <= j < keys.take(i as int).len() && keys.take(i as int)[j] == keys[i as int];
                    assert(keys[j] == keys[i as int]);
                }
            }
            lemma_map_of_push(keys.take(i as int), values.take(i as int), keys[i as int], values[i as int]);
            assert(keys.take(i + 1) =~= keys.take(i as int).push(keys[i as int]));
            assert(values.take(i + 1) =~= values.take(i as int).push(values[i as int]));
            lemma_total_over_insert(done, keys[i as int], values[i as int], false);
            lemma_total_over_insert(done, keys[i as int], values[i as int], true);
            assert((i + 1) * 0xffff_ffff_ffff_ffff == i * 0xffff_ffff_ffff_ffff + 0xffff_ffff_ffff_ffff)
                by (nonlinear_arith);
            assert(i * 0xffff_ffff_ffff_ffff <= 0xffff_ffff_ffff_ffff * 0xffff_ffff_ffff_ffff)
                by (nonlinear_arith)
                requires
                    i <= 0xffff_ffff_ffff_ffff,
            ;
        }
        all = all + total.all as u128;
        unique = unique + total.unique as u128;
        i += 1;
    }
    proof {
        assert(keys.take(i as int) =~= keys);
        assert(values.take(i as int) =~= values);
    }
    if all <= 0xffff_ffff_ffff_ffff && unique <= 0xffff_ffff_ffff_ffff {
        Some(Metric { all: all as u64, unique: unique as u64 })
    } else {
        None
    }
}

/// The sum of the window counts of a snapshot's entries.
pub open spec fn window_count(rs: Seq<Reading>) -> nat
    decreases rs.len(),
{
    if rs.len() == 0 {
        0
    } else {
        window_count(rs.drop_last()) + rs.last().count as nat
    }
}

/// The sum of the window counts of unique visitors of a snapshot's entries.
pub open spec fn window_uniques(rs: Seq<Reading>) -> nat
    decreases rs.len(),
{
    if rs.len() == 0 {
        0
    } else {
        window_uniques(rs.drop_last()) + rs.last().uniques as nat
    }
}

/// The sums over a part of a snapshot are at most the sums over the whole.
pub proof fn lemma_window_monotonic(rs: Seq<Reading>, n: int)
    requires
        0 <= n <= rs.len(),
    ensures
        window_count(rs.take(n)) <= window_count(rs),
        window_uniques(rs.take(n)) <= window_uniques(rs),
    decreases rs.len() - n,
{
    if n == rs.len() {
        assert(rs.take(n) =~= rs);
    } else {
        lemma_window_monotonic(rs, n + 1);
        assert(rs.take(n + 1).drop_last() =~= rs.take(n));
    }
}

/// The window totals of a whole snapshot of dayless aggregates: the sums of
/// its entries' counts, which is what the sampling around midnight watches.
/// `None` where a sum passes 64 bits.
pub fn snapshot_totals<P: SeriesPoint>(points: &Vec<P>) -> (totals: Option<QuantifiableEvents>)
    ensures
        window_count(readings(points@)) <= u64::MAX && window_uniques(readings(points@)) <= u64::MAX
            ==> totals == Some(
            QuantifiableEvents {
                amount: window_count(readings(points@)) as u64,
                amount_unique: window_uniques(readings(points@)) as u64,
            },
        ),
        window_count(readings(points@)) > u64::MAX || window_uniques(readings(points@)) > u64::MAX
            ==> totals is None,
{
    let ghost all = readings(points@);
    let mut sums = QuantifiableEvents { amount: 0, amount_unique: 0 };
    let mut i: usize = 0;
    proof {
        assert(all.take(0) =~= Seq::<Reading>::empty());
    }
    while i < points.len()
        invariant
            i <= points.len(),
            all == readings(points@),
            all.len() == points.len(),
            sums.amount == window_count(all.take(i as int)),
            sums.amount_unique == window_uniques(all.take(i as int)),
        decreases points.len() - i,
    {
        let point = &points[i];
        proof {
            lemma_window_monotonic(all, i + 1);
            assert(all.take(i + 1).drop_last() =~= all.take(i as int));
            assert(all.take(i + 1).last() == points@[i as int].reading());
        }
        if point.count() > u64::MAX - sums.amount || point.uniques() > u64::MAX - sums.amount_unique {
            return None;
        }
        sums.amount = sums.amount + point.count();
        sums.amount_unique = sums.amount_unique + point.uniques();
        i += 1;
    }
    proof {
        assert(all.take(i as int) =~= all);
    }
    Some(sums)
}

/// A copy of the timelines of all keys.
pub fn duplicate_timelines(timelines: &KeyedSeries<Timeline>) -> (copy: KeyedSeries<Timeline>)
    ensures
        copy@ == timelines@,
        copy.keys() == timelines.keys(),
        copy.values() == timelines.values(),
{
    let count = timelines.len();
    let mut copy: KeyedSeries<Timeline> = KeyedSeries::new();
    let mut i: usize = 0;
    while i < count
        invariant
            i <= count,
            count == timelines.keys().len(),
            timelines.well_formed(),
            copy.well_formed(),
            copy.keys() == timelines.keys().take(i as int),
            copy.values() == timelines.values().take(i as int),
        decreases count - i,
    {
        let key = timelines.key_at(i);
        let value = timelines.value_at(i).duplicate();
        proof {
            let keys = timelines.keys();
            if keys.take(i as int).contains(keys[i as int]) {
                let j = choose|j: int|
                    0 <= j < keys.take(i as int).len() && keys.take(i as int)[j] == keys[i as int];
                assert(keys[j] == keys[i as int]);
            }
            assert(keys.take(i + 1) =~= keys.take(i as int).push(keys[i as int]));
            assert(timelines.values().take(i + 1) =~= timelines.values().take(i as int).push(
                timelines.values()[i as int],
            ));
        }
        copy.push_new(key.clone(), value);
        i += 1;
    }
    proof {
        assert(timelines.keys().take(i as int) =~= timelines.keys());
        assert(timelines.values().take(i as int) =~= timelines.values());
    }
    copy
}

/// The timelines of all keys as a list of pairs, for writing them out.
pub fn timelines_to_pairs(timelines: &KeyedSeries<Timeline>) -> (pairs: Vec<(String, Timeline)>)
    ensures
        pairs.len() == timelines@.len(),
        distinct_keys(pair_views(pairs@)),
        map_of_pairs(pair_views(pairs@)) == timelines@,
{
    let count = timelines.len();
    let mut pairs: Vec<(String, Timeline)> = Vec::new();
    let mut i: usize = 0;
    while i < count
        invariant
            i <= count,
            count == timelines.keys().len(),
            count == timelines@.len(),
            timelines.well_formed(),
            pairs.len() == i,
            forall|j: int|
                0 <= j < i ==> (#[trigger] pair_views(pairs@)[j]) == (
                    timelines.keys()[j],
                    timelines.values()[j],
                ),
        decreases count - i,
    {
        let key = timelines.key_at(i).clone();
        let value = timelines.value_at(i).duplicate();
        let ghost before = pair_views(pairs@);
        pairs.push((key, value));
        proof {
            assert forall|j: int| 0 <= j < i + 1 implies (#[trigger] pair_views(pairs@)[j]) == (
                timelines.keys()[j],
                timelines.values()[j],
            ) by {
                if j < i {
                    assert(pair_views(pairs@)[j] == before[j]);
                }
            }
        }
        i += 1;
    }
    proof {
        lemma_zipped_pairs(timelines.keys(), timelines.values(), pair_views(pairs@));
    }
    pairs
}

/// The timelines that a list of pairs stands for, read front to back; a
/// later pair replaces an earlier one with the same key.
pub fn timelines_from_pairs(pairs: &Vec<(String, Timeline)>) -> (timelines: KeyedSeries<Timeline>)
    ensures
        timelines@ == map_of_pairs(pair_views(pairs@)),
{
    let mut timelines: KeyedSeries<Timeline> = KeyedSeries::new();
    let ghost all = pair_views(pairs@);
    let mut i: usize = 0;
    proof {
        assert(all.take(0) =~= Seq::<(Seq<char>, TimelineView)>::empty());
    }
    while i < pairs.len()
        invariant
            i <= pairs.len(),
            all == pair_views(pairs@),
            all.len() == pairs.len(),
            timelines@ == map_of_pairs(all.take(i as int)),
        decreases pairs.len() - i,
    {
        proof {
            assert(all.take(i + 1).drop_last() =~= all.take(i as int));
            assert(all.take(i + 1).last() == (pairs@[i as int].0@, pairs@[i as int].1@));
        }
        let value = pairs[i].1.duplicate();
        timelines.insert(pairs[i].0.clone(), value);
        i += 1;
    }
    proof {
        assert(all.take(i as int) =~= all);
    }
    timelines
}

} // verus!
