//! The data model of the historical record: counter pairs, per-key
//! timelines of rolling-window observations, and the report that is kept of
//! them.
//!
//! The referrer and content endpoints report, for each key, a live sum over
//! the trailing fourteen days and no timestamp.  A [`Timeline`] keeps every
//! such observation of one key as a [`TimelineEntry`]: the window total as
//! read, the signed change since the previous observation, and when both
//! were read.  Only increases are credited to the key's running all-time
//! total; a shrinking window never lowers it.
//!
//! A [`Report`] keeps one timeline for every referring site and every
//! content path, and the hourly and weekly counters of views and clones side
//! by side under their timestamps.

use vstd::prelude::*;
use crate::api_models::{
    ModelContentTrafficBiWeekly, ModelReferrerals, ModelRepoClonesBiWeekly, ModelRepoClonesDaily,
    ModelRepoViewsBiWeekly, ModelRepoViewsDaily,
};
use crate::dayless::{
    duplicate_timelines, law_observe_all_never_lowers, names, observe_all, observe_snapshot,
    sum_timelines, timeline_of, total_over,
};
use crate::paired::{
    advanced_side, law_merge_both_idempotent, lemma_gain_side_monotonic, merge_both, merge_side,
    merge_side_exact_checked, merge_side_windowed, side_fits, Side,
};
use crate::reconcile::readings;
use crate::series::KeyedSeries;

verus! {

/// Seconds since the Unix epoch, UTC.
pub type TimestampUnix = u64;

/// A timestamp as the traffic API writes it.
pub type TimestampUTC = String;

/// A referring site's domain.
pub type ReferrerDomain = String;

/// A path of the repository's content.
pub type ContentPath = String;

/// The six snapshots of one polling cycle.
#[derive(Debug, Clone, PartialEq, Eq, Default)]
pub struct ReportData {
    pub biweekly_v: ModelRepoViewsBiWeekly,
    pub biweekly_c: ModelRepoClonesBiWeekly,
    pub daily_v: ModelRepoViewsDaily,
    pub daily_c: ModelRepoClonesDaily,
    pub referrals: ModelReferrerals,
    pub content_traffic: ModelContentTrafficBiWeekly,
}

/// A count pair: all events, and the unique visitors that caused them.
#[derive(Debug, Clone, Copy, PartialEq, Eq, Default)]
pub struct QuantifiableEvents {
    pub amount: u64,
    pub amount_unique: u64,
}

impl View for QuantifiableEvents {
    type V = QuantifiableEvents;

    open spec fn view(&self) -> QuantifiableEvents {
        *self
    }
}

/// A running total: all events, and unique visitors.
#[derive(Debug, Clone, Copy, PartialEq, Eq, Default)]
pub struct Metric {
    pub all: u64,
    pub unique: u64,
}

/// The view and the clone counters of one timestamp, side by side.
#[derive(Debug, Clone, Copy, PartialEq, Eq, Default)]
pub struct ViewCloneMetric {
    pub views: Metric,
    pub clones: Metric,
}

impl View for ViewCloneMetric {
    type V = ViewCloneMetric;

    open spec fn view(&self) -> ViewCloneMetric {
        *self
    }
}

/// Why an observation cannot follow an earlier one.
#[derive(Debug, Clone, Copy, PartialEq, Eq)]
pub enum ObservationError {
    /// The observation was read before the one it should follow.
    OutOfOrder,
    /// The change between the two window totals does not fit in 64 signed
    /// bits.
    ChangeTooLarge,
}

/// One observation of a key's rolling fourteen-day window.
#[derive(Debug, Clone, Copy, PartialEq, Eq, Default)]
pub struct TimelineEntry {
    /// When the window was read.
    pub timestamp: TimestampUnix,
    /// When the previous observation of the key was read; for the first
    /// observation, `timestamp` itself.
    pub paststamp: TimestampUnix,
    /// Seconds between the previous observation and this one.
    pub pastdelta: TimestampUnix,
    /// Unique visitors in the window, as read.
    pub views_u: u64,
    /// Events in the window, as read.
    pub views_a: u64,
    /// Signed change of `views_a` since the previous observation; for the
    /// first observation, `views_a` itself.
    pub change_a: i64,
    /// Signed change of `views_u` since the previous observation; for the
    /// first observation, `views_u` itself.
    pub change_u: i64,
    /// Set where the observation could not be attributed with confidence,
    /// as when it was read while the UTC day changed.
    pub low_confidence: bool,
}

/// The signed difference of two window totals fits in 64 signed bits.
pub open spec fn change_fits(newer: u64, older: u64) -> bool {
    i64::MIN <= newer - older <= i64::MAX
}

/// The signed difference of two window totals, where it fits in 64 signed
/// bits.
pub fn signed_change(newer: u64, older: u64) -> (change: Option<i64>)
    ensures
        change_fits(newer, older) ==> change == Some((newer - older) as i64),
        !change_fits(newer, older) ==> change is None,
{
    if newer >= older {
        let up: u64 = newer - older;
        if up <= 0x7fff_ffff_ffff_ffff {
            Some(up as i64)
        } else {
            None
        }
    } else {
        let down: u64 = older - newer;
        if down <= 0x7fff_ffff_ffff_ffff {
            Some(-(down as i64))
        } else if down == 0x8000_0000_0000_0000 {
            Some(i64::MIN)
        } else {
            None
        }
    }
}

impl TimelineEntry {
    /// The entry of a key's first observation: the baseline of its timeline.
    /// The whole window counts as change.
    pub open spec fn baseline(timestamp: u64, views_a: u64, views_u: u64) -> TimelineEntry {
        TimelineEntry {
            timestamp,
            paststamp: timestamp,
            pastdelta: 0,
            views_u,
            views_a,
            change_a: views_a as i64,
            change_u: views_u as i64,
            low_confidence: false,
        }
    }

    /// An observation read at `timestamp` can follow `older`: it is not
    /// earlier, and both signed changes fit in 64 signed bits.
    pub open spec fn can_follow(
        older: TimelineEntry,
        timestamp: u64,
        views_a: u64,
        views_u: u64,
    ) -> bool {
        &&& timestamp >= older.timestamp
        &&& change_fits(views_a, older.views_a)
        &&& change_fits(views_u, older.views_u)
    }

    /// Why an observation read at `timestamp` cannot follow `older`.
    pub open spec fn obstacle(
        older: TimelineEntry,
        timestamp: u64,
        views_a: u64,
        views_u: u64,
    ) -> ObservationError {
        if timestamp < older.timestamp {
            ObservationError::OutOfOrder
        } else {
            ObservationError::ChangeTooLarge
        }
    }

    /// The entry of an observation that follows `older`: the window totals
    /// as read, and their signed change since `older`.
    pub open spec fn successor(
        older: TimelineEntry,
        timestamp: u64,
        views_a: u64,
        views_u: u64,
    ) -> TimelineEntry {
        TimelineEntry {
            timestamp,
            paststamp: older.timestamp,
            pastdelta: (timestamp - older.timestamp) as u64,
            views_u,
            views_a,
            change_a: (views_a - older.views_a) as i64,
            change_u: (views_u - older.views_u) as i64,
            low_confidence: false,
        }
    }

    /// What the entry adds to the key's all-time count: its change where
    /// that is positive, else nothing.
    pub open spec fn credit(self) -> nat {
        if self.change_a > 0 {
            self.change_a as nat
        } else {
            0
        }
    }

    /// What the entry adds to the key's all-time count of unique visitors.
    pub open spec fn credit_unique(self) -> nat {
        if self.change_u > 0 {
            self.change_u as nat
        } else {
            0
        }
    }

    /// The baseline entry of a key that is observed for the first time.
    pub fn new(timestamp: TimestampUnix, views_a: u64, views_u: u64) -> (entry: TimelineEntry)
        requires
            views_a <= i64::MAX,
            views_u <= i64::MAX,
        ensures
            entry == Self::baseline(timestamp, views_a, views_u),
    {
        TimelineEntry {
            timestamp,
            paststamp: timestamp,
            pastdelta: 0,
            views_u,
            views_a,
            change_a: views_a as i64,
            change_u: views_u as i64,
            low_confidence: false,
        }
    }

    /// The entry of an observation that follows `older`, or `None` where it
    /// cannot follow: where it was read earlier than `older`, or a change
    /// does not fit in 64 signed bits.
    pub fn try_from_older(
        older: &Self,
        timestamp: TimestampUnix,
        views_a: u64,
        views_u: u64,
    ) -> (entry: Option<TimelineEntry>)
        ensures
            Self::can_follow(*older, timestamp, views_a, views_u) ==> entry == Some(
                Self::successor(*older, timestamp, views_a, views_u),
            ),
            !Self::can_follow(*older, timestamp, views_a, views_u) ==> entry is None,
    {
        if timestamp < older.timestamp {
            return None;
        }
        let change_a = match signed_change(views_a, older.views_a) {
            Some(change) => change,
            None => {
                return None;
            },
        };
        let change_u = match signed_change(views_u, older.views_u) {
            Some(change) => change,
            None => {
                return None;
            },
        };
        Some(
            TimelineEntry {
                timestamp,
                paststamp: older.timestamp,
                pastdelta: timestamp - older.timestamp,
                views_u,
                views_a,
                change_a,
                change_u,
                low_confidence: false,
            },
        )
    }

    /// Replaces this entry by the entry of a newer observation that follows
    /// it.  Where the observation cannot follow, the entry stays as it is and
    /// the error says why.
    pub fn update(
        &mut self,
        timestamp: TimestampUnix,
        views_a: u64,
        views_u: u64,
    ) -> (outcome: Result<(), ObservationError>)
        ensures
            Self::can_follow(*old(self), timestamp, views_a, views_u) ==> outcome is Ok && *final(self)
                == Self::successor(*old(self), timestamp, views_a, views_u),
            !Self::can_follow(*old(self), timestamp, views_a, views_u) ==> outcome == Err::<
                (),
                ObservationError,
            >(Self::obstacle(*old(self), timestamp, views_a, views_u)) && *final(self) == *old(self),
    {
        let older = *self;
        match Self::try_from_older(&older, timestamp, views_a, views_u) {
            Some(entry) => {
                *self = entry;
                Ok(())
            },
            None => {
                if timestamp < older.timestamp {
                    Err(ObservationError::OutOfOrder)
                } else {
                    Err(ObservationError::ChangeTooLarge)
                }
            },
        }
    }

    /// What the entry adds to the key's all-time pair.
    pub fn credited(&self) -> (credit: QuantifiableEvents)
        ensures
            credit.amount == self.credit(),
            credit.amount_unique == self.credit_unique(),
    {
        QuantifiableEvents {
            amount: if self.change_a > 0 {
                self.change_a as u64
            } else {
                0
            },
            amount_unique: if self.change_u > 0 {
                self.change_u as u64
            } else {
                0
            },
        }
    }
}

/// Every observation of one key, oldest first, under the key's running
/// all-time total.
#[derive(Debug, Clone, PartialEq, Eq)]
pub struct Timeline {
    /// Best-effort all-time total of the key: the sum of the entries'
    /// credits.
    pub metrics_total: Metric,
    /// When the latest entry was read.
    pub latest_entry_timestamp: TimestampUnix,
    /// The observations, oldest first.
    pub metric_timeline: Vec<TimelineEntry>,
}

/// What a [`Timeline`] holds.
pub struct TimelineView {
    pub metrics_total: Metric,
    pub latest_entry_timestamp: TimestampUnix,
    pub metric_timeline: Seq<TimelineEntry>,
}

impl View for Timeline {
    type V = TimelineView;

    open spec fn view(&self) -> TimelineView {
        TimelineView {
            metrics_total: self.metrics_total,
            latest_entry_timestamp: self.latest_entry_timestamp,
            metric_timeline: self.metric_timeline@,
        }
    }
}

impl TimelineView {
    /// The timeline of a key that was never observed.
    pub open spec fn empty() -> TimelineView {
        TimelineView {
            metrics_total: Metric { all: 0, unique: 0 },
            latest_entry_timestamp: 0,
            metric_timeline: Seq::empty(),
        }
    }

    /// The entry that an observation would get from its predecessor alone:
    /// the baseline on an empty timeline, else the successor of the latest
    /// entry; `None` where the changes cannot be represented or the
    /// observation is earlier than the latest entry.
    pub open spec fn draft(
        self,
        timestamp: u64,
        views_a: u64,
        views_u: u64,
    ) -> Option<TimelineEntry> {
        if self.metric_timeline.len() == 0 {
            if views_a <= i64::MAX && views_u <= i64::MAX {
                Some(TimelineEntry::baseline(timestamp, views_a, views_u))
            } else {
                None
            }
        } else if TimelineEntry::can_follow(self.metric_timeline.last(), timestamp, views_a, views_u) {
            Some(TimelineEntry::successor(self.metric_timeline.last(), timestamp, views_a, views_u))
        } else {
            None
        }
    }

    /// The entry that recording an observation appends, or `None` where the
    /// observation is turned away: where it has no draft, or its credit
    /// would carry the running total beyond 64 bits.
    pub open spec fn estimate(
        self,
        timestamp: u64,
        views_a: u64,
        views_u: u64,
        low_confidence: bool,
    ) -> Option<TimelineEntry> {
        match self.draft(timestamp, views_a, views_u) {
            Some(entry) => {
                if self.metrics_total.all + entry.credit() <= u64::MAX && self.metrics_total.unique
                    + entry.credit_unique() <= u64::MAX {
                    Some(TimelineEntry { low_confidence, ..entry })
                } else {
                    None
                }
            },
            None => None,
        }
    }

    /// The timeline after an observation is recorded: with the estimated
    /// entry appended and its credit added to the running total, or
    /// unchanged where the observation is turned away.
    pub open spec fn record(
        self,
        timestamp: u64,
        views_a: u64,
        views_u: u64,
        low_confidence: bool,
    ) -> TimelineView {
        match self.estimate(timestamp, views_a, views_u, low_confidence) {
            Some(entry) => TimelineView {
                metrics_total: Metric {
                    all: (self.metrics_total.all + entry.credit()) as u64,
                    unique: (self.metrics_total.unique + entry.credit_unique()) as u64,
                },
                latest_entry_timestamp: timestamp,
                metric_timeline: self.metric_timeline.push(entry),
            },
            None => self,
        }
    }
}

impl Default for Timeline {
    fn default() -> (timeline: Self)
        ensures
            timeline@ == TimelineView::empty(),
    {
        Timeline {
            metrics_total: Metric { all: 0, unique: 0 },
            latest_entry_timestamp: 0,
            metric_timeline: Vec::new(),
        }
    }
}

impl Timeline {
    /// Records one observation of the key's window and returns the entry
    /// that was appended for it, or `None` where the observation was turned
    /// away and the timeline left as it was.
    pub fn record(
        &mut self,
        timestamp: TimestampUnix,
        views_a: u64,
        views_u: u64,
        low_confidence: bool,
    ) -> (entry: Option<TimelineEntry>)
        ensures
            entry == old(self)@.estimate(timestamp, views_a, views_u, low_confidence),
            final(self)@ == old(self)@.record(timestamp, views_a, views_u, low_confidence),
            final(self).metrics_total.all >= old(self).metrics_total.all,
            final(self).metrics_total.unique >= old(self).metrics_total.unique,
    {
        let count = self.metric_timeline.len();
        let draft = if count == 0 {
            if views_a <= 0x7fff_ffff_ffff_ffff && views_u <= 0x7fff_ffff_ffff_ffff {
                Some(TimelineEntry::new(timestamp, views_a, views_u))
            } else {
                None
            }
        } else {
            TimelineEntry::try_from_older(&self.metric_timeline[count - 1], timestamp, views_a, views_u)
        };
        match draft {
            Some(entry) => {
                let credit = entry.credited();
                if credit.amount <= u64::MAX - self.metrics_total.all && credit.amount_unique <= u64::MAX
                    - self.metrics_total.unique {
                    let mut entry = entry;
                    entry.low_confidence = low_confidence;
                    self.metrics_total.all = self.metrics_total.all + credit.amount;
                    self.metrics_total.unique = self.metrics_total.unique + credit.amount_unique;
                    self.latest_entry_timestamp = timestamp;
                    self.metric_timeline.push(entry);
                    Some(entry)
                } else {
                    None
                }
            },
            None => None,
        }
    }

    /// A copy of the timeline.
    pub fn duplicate(&self) -> (copy: Timeline)
        ensures
            copy@ == self@,
    {
        let mut entries: Vec<TimelineEntry> = Vec::new();
        let mut i: usize = 0;
        while i < self.metric_timeline.len()
            invariant
                i <= self.metric_timeline.len(),
                entries@ == self.metric_timeline@.take(i as int),
            decreases self.metric_timeline.len() - i,
        {
            entries.push(self.metric_timeline[i]);
            proof {
                assert(self.metric_timeline@.take(i + 1) =~= self.metric_timeline@.take(i as int).push(
                    self.metric_timeline@[i as int],
                ));
            }
            i += 1;
        }
        proof {
            assert(self.metric_timeline@.take(i as int) =~= self.metric_timeline@);
        }
        Timeline {
            metrics_total: self.metrics_total,
            latest_entry_timestamp: self.latest_entry_timestamp,
            metric_timeline: entries,
        }
    }
}

/// A flat summary of a record, as it is written out for other programs.
#[derive(Debug)]
pub struct JsonReportModel {
    pub all_time_views: u64,
    pub all_time_views_unique: u64,
    pub all_time_clones: u64,
    pub all_time_clones_unique: u64,
    pub all_time_referrals: u64,
    pub all_time_referrals_unique: u64,
    pub all_time_content_visits: u64,
    pub all_time_content_visits_unique: u64,
    pub amount_of_referrers: u64,
    pub amount_of_content_visited: u64,
    pub weekly_views: KeyedSeries<QuantifiableEvents>,
    pub weekly_clones: KeyedSeries<QuantifiableEvents>,
    pub hourly_views: KeyedSeries<QuantifiableEvents>,
    pub hourly_clones: KeyedSeries<QuantifiableEvents>,
    pub weekly_referrals: KeyedSeries<QuantifiableEvents>,
    pub weekly_content_visits: KeyedSeries<QuantifiableEvents>,
}

/// The record of one repository with the view and the clone counters of
/// each timestamp side by side, and one timeline for every referring site
/// and every content path.
#[derive(Debug)]
pub struct Report {
    /// All-time totals of views and of clones.
    pub total: ViewCloneMetric,
    /// All-time total over all referring sites.
    pub referrals: Metric,
    /// All-time total over all content paths.
    pub content: Metric,
    /// Number of referring sites that have a timeline.
    pub referrers: u64,
    /// Number of content paths that have a timeline.
    pub traffic_paths: u64,
    pub weekly: KeyedSeries<ViewCloneMetric>,
    pub daily: KeyedSeries<ViewCloneMetric>,
    pub timelines_referrals: KeyedSeries<Timeline>,
    pub timelines_content_traffic: KeyedSeries<Timeline>,
}

/// What a [`Report`] holds.
pub struct ReportView {
    pub total: ViewCloneMetric,
    pub referrals: Metric,
    pub content: Metric,
    pub referrers: u64,
    pub traffic_paths: u64,
    pub weekly: Map<Seq<char>, ViewCloneMetric>,
    pub daily: Map<Seq<char>, ViewCloneMetric>,
    pub timelines_referrals: Map<Seq<char>, TimelineView>,
    pub timelines_content_traffic: Map<Seq<char>, TimelineView>,
}

impl View for Report {
    type V = ReportView;

    open spec fn view(&self) -> ReportView {
        ReportView {
            total: self.total,
            referrals: self.referrals,
            content: self.content,
            referrers: self.referrers,
            traffic_paths: self.traffic_paths,
            weekly: self.weekly@,
            daily: self.daily@,
            timelines_referrals: self.timelines_referrals@,
            timelines_content_traffic: self.timelines_content_traffic@,
        }
    }
}

/// A total of the report would pass 64 bits.
#[derive(Debug, Clone, Copy, PartialEq, Eq, Structural)]
pub struct TotalsOverflow;

impl ReportView {
    /// The report of a first run: nothing recorded, every total zero.
    pub open spec fn empty() -> ReportView {
        ReportView {
            total: ViewCloneMetric {
                views: Metric { all: 0, unique: 0 },
                clones: Metric { all: 0, unique: 0 },
            },
            referrals: Metric { all: 0, unique: 0 },
            content: Metric { all: 0, unique: 0 },
            referrers: 0,
            traffic_paths: 0,
            weekly: Map::empty(),
            daily: Map::empty(),
            timelines_referrals: Map::empty(),
            timelines_content_traffic: Map::empty(),
        }
    }

    /// The hourly series once the cycle's hourly views are merged, before
    /// its hourly clones are.
    pub open spec fn daily_with_views(self, data: ReportData) -> Map<Seq<char>, ViewCloneMetric> {
        merge_side(self.daily, readings(data.daily_v.views@), Side::Views)
    }

    /// The timelines of the referring sites once the cycle's referrers,
    /// read at `now`, are observed.
    pub open spec fn observed_referrers(self, data: ReportData, now: u64) -> Map<
        Seq<char>,
        TimelineView,
    > {
        observe_all(self.timelines_referrals, readings(data.referrals@), now, false)
    }

    /// The timelines of the content paths once the cycle's paths, read at
    /// `now`, are observed.
    pub open spec fn observed_paths(self, data: ReportData, now: u64) -> Map<
        Seq<char>,
        TimelineView,
    > {
        observe_all(self.timelines_content_traffic, readings(data.content_traffic@), now, false)
    }

    /// Every total still fits in 64 bits once a whole cycle's snapshots are
    /// reconciled.
    pub open spec fn fits(self, data: ReportData, now: u64) -> bool {
        &&& side_fits(self.total.views, self.daily, readings(data.daily_v.views@), Side::Views)
        &&& side_fits(
            self.total.clones,
            self.daily_with_views(data),
            readings(data.daily_c.clones@),
            Side::Clones,
        )
        &&& total_over(self.observed_referrers(data, now), false) <= u64::MAX
        &&& total_over(self.observed_referrers(data, now), true) <= u64::MAX
        &&& total_over(self.observed_paths(data, now), false) <= u64::MAX
        &&& total_over(self.observed_paths(data, now), true) <= u64::MAX
    }

    /// The report after a whole cycle's snapshots, read at `now`, are
    /// reconciled.
    ///
    /// Weekly and hourly counters are raised to the component-wise maximum,
    /// views and clones each on their own side.  The totals of views and
    /// clones advance by the gain of the hourly series alone.  Every referring
    /// site and every content path gets one observation in its timeline; the
    /// totals over all referring sites and over all content paths are the
    /// sums of the timelines' running totals, and the two counts are the
    /// numbers of timelines.
    pub open spec fn updated(self, data: ReportData, now: u64) -> ReportView {
        let referrers = self.observed_referrers(data, now);
        let paths = self.observed_paths(data, now);
        ReportView {
            total: ViewCloneMetric {
                views: advanced_side(
                    self.total.views,
                    self.daily,
                    readings(data.daily_v.views@),
                    Side::Views,
                ),
                clones: advanced_side(
                    self.total.clones,
                    self.daily_with_views(data),
                    readings(data.daily_c.clones@),
                    Side::Clones,
                ),
            },
            referrals: Metric {
                all: total_over(referrers, false) as u64,
                unique: total_over(referrers, true) as u64,
            },
            content: Metric {
                all: total_over(paths, false) as u64,
                unique: total_over(paths, true) as u64,
            },
            referrers: referrers.len() as u64,
            traffic_paths: paths.len() as u64,
            weekly: merge_both(
                self.weekly,
                readings(data.biweekly_v.views@),
                readings(data.biweekly_c.clones@),
            ),
            daily: merge_both(
                self.daily,
                readings(data.daily_v.views@),
                readings(data.daily_c.clones@),
            ),
            timelines_referrals: referrers,
            timelines_content_traffic: paths,
        }
    }

    /// The report after a polling cycle: reconciled where every total still
    /// fits in 64 bits, else as it was.
    pub open spec fn after_update(self, data: ReportData, now: u64) -> ReportView {
        if self.fits(data, now) {
            self.updated(data, now)
        } else {
            self
        }
    }
}

impl Default for Report {
    /// The report of a first run.
    fn default() -> (report: Self)
        ensures
            report@ == ReportView::empty(),
    {
        Report {
            total: ViewCloneMetric {
                views: Metric { all: 0, unique: 0 },
                clones: Metric { all: 0, unique: 0 },
            },
            referrals: Metric { all: 0, unique: 0 },
            content: Metric { all: 0, unique: 0 },
            referrers: 0,
            traffic_paths: 0,
            weekly: KeyedSeries::new(),
            daily: KeyedSeries::new(),
            timelines_referrals: KeyedSeries::new(),
            timelines_content_traffic: KeyedSeries::new(),
        }
    }
}

impl Report {
    /// The report of a first run after its first polling cycle: the empty
    /// report with the cycle's snapshots, read at `timestamp`, reconciled
    /// into it; the empty report where a total would pass 64 bits.
    pub fn new(data: &ReportData, timestamp: TimestampUnix) -> (report: Self)
        ensures
            report@ == ReportView::empty().after_update(*data, timestamp),
    {
        let mut report = Report::default();
        let _ = report.update(data, timestamp);
        report
    }

    /// A copy of the report.
    pub fn duplicate(&self) -> (copy: Report)
        ensures
            copy@ == self@,
    {
        Report {
            total: self.total,
            referrals: self.referrals,
            content: self.content,
            referrers: self.referrers,
            traffic_paths: self.traffic_paths,
            weekly: self.weekly.duplicate(),
            daily: self.daily.duplicate(),
            timelines_referrals: duplicate_timelines(&self.timelines_referrals),
            timelines_content_traffic: duplicate_timelines(&self.timelines_content_traffic),
        }
    }

    /// What [`Self::update`] would make of this report, which itself stays
    /// as it is.
    pub fn update_clone(&self, new_data: &ReportData, timestamp: TimestampUnix) -> (updated: Result<
        Report,
        TotalsOverflow,
    >)
        ensures
            self@.fits(*new_data, timestamp) ==> updated is Ok && updated->Ok_0@ == self@.updated(
                *new_data,
                timestamp,
            ),
            !self@.fits(*new_data, timestamp) ==> updated is Err,
    {
        let mut clone = self.duplicate();
        match clone.update(new_data, timestamp) {
            Ok(()) => Ok(clone),
            Err(error) => Err(error),
        }
    }

    /// Reconciles the six snapshots of one polling cycle, read at
    /// `timestamp`, into the report.  Where a total would pass 64 bits, the
    /// report stays as it is and the cycle is refused.
    pub fn update(&mut self, new_data: &ReportData, timestamp: TimestampUnix) -> (outcome: Result<
        (),
        TotalsOverflow,
    >)
        ensures
            outcome is Ok <==> old(self)@.fits(*new_data, timestamp),
            final(self)@ == old(self)@.after_update(*new_data, timestamp),
            final(self).total.views.all >= old(self).total.views.all,
            final(self).total.views.unique >= old(self).total.views.unique,
            final(self).total.clones.all >= old(self).total.clones.all,
            final(self).total.clones.unique >= old(self).total.clones.unique,
    {
        proof {
            lemma_gain_side_monotonic(self.daily@, readings(new_data.daily_v.views@), Side::Views, 0);
            lemma_gain_side_monotonic(
                self@.daily_with_views(*new_data),
                readings(new_data.daily_c.clones@),
                Side::Clones,
                0,
            );
        }
        let mut referrers = duplicate_timelines(&self.timelines_referrals);
        observe_snapshot(&mut referrers, &new_data.referrals, timestamp, false);
        let referrals = match sum_timelines(&referrers) {
            Some(sums) => sums,
            None => {
                return Err(TotalsOverflow);
            },
        };
        let mut paths = duplicate_timelines(&self.timelines_content_traffic);
        observe_snapshot(&mut paths, &new_data.content_traffic, timestamp, false);
        let content = match sum_timelines(&paths) {
            Some(sums) => sums,
            None => {
                return Err(TotalsOverflow);
            },
        };
        let mut daily = self.daily.duplicate();
        let views = match merge_side_exact_checked(
            &mut daily,
            &new_data.daily_v.views,
            Side::Views,
            self.total.views,
        ) {
            Some(total) => total,
            None => {
                return Err(TotalsOverflow);
            },
        };
        let clones = match merge_side_exact_checked(
            &mut daily,
            &new_data.daily_c.clones,
            Side::Clones,
            self.total.clones,
        ) {
            Some(total) => total,
            None => {
                return Err(TotalsOverflow);
            },
        };
        merge_side_windowed(&mut self.weekly, &new_data.biweekly_v.views, Side::Views);
        merge_side_windowed(&mut self.weekly, &new_data.biweekly_c.clones, Side::Clones);
        self.daily = daily;
        self.total = ViewCloneMetric { views, clones };
        self.referrals = referrals;
        self.content = content;
        self.traffic_paths = paths.len() as u64;
        self.referrers = referrers.len() as u64;
        self.timelines_referrals = referrers;
        self.timelines_content_traffic = paths;
        Ok(())
    }
}

/// **The same cycle twice.**  After a cycle that was reconciled, reconciling
/// the same snapshots a second time, at whatever time, leaves the weekly and
/// the hourly series and the totals of views and clones exactly as they
/// were, whether or not the second cycle is refused.
pub proof fn law_same_report_cycle_twice(report: ReportView, data: ReportData, now: u64, later: u64)
    requires
        report.fits(data, now),
    ensures
        ({
            let once = report.after_update(data, now);
            let twice = once.after_update(data, later);
            &&& twice.weekly == once.weekly
            &&& twice.daily == once.daily
            &&& twice.total == once.total
        }),
{
    let once = report.updated(data, now);
    law_merge_both_idempotent(
        report.weekly,
        readings(data.biweekly_v.views@),
        readings(data.biweekly_c.clones@),
    );
    law_merge_both_idempotent(
        report.daily,
        readings(data.daily_v.views@),
        readings(data.daily_c.clones@),
    );
    lemma_gain_side_monotonic(report.daily, readings(data.daily_v.views@), Side::Views, 0);
    lemma_gain_side_monotonic(
        report.daily_with_views(data),
        readings(data.daily_c.clones@),
        Side::Clones,
        0,
    );
    assert(once.daily_with_views(data) == once.daily);
}

/// **No timeline is lost and no running total falls.**  Every referring
/// site and every content path that has a timeline before a polling cycle
/// has one after it, with a running total at least as large, also where its
/// window has shrunk or it has left the snapshot altogether; and every site
/// and path that a reconciled cycle names has a timeline afterwards.
pub proof fn law_report_timelines_never_lower(
    report: ReportView,
    data: ReportData,
    now: u64,
    key: Seq<char>,
)
    ensures
        ({
            let after = report.after_update(data, now);
            &&& report.timelines_referrals.contains_key(key) ==> after.timelines_referrals.contains_key(
                key,
            )
            &&& timeline_of(after.timelines_referrals, key).metrics_total.all >= timeline_of(
                report.timelines_referrals,
                key,
            ).metrics_total.all
            &&& timeline_of(after.timelines_referrals, key).metrics_total.unique >= timeline_of(
                report.timelines_referrals,
                key,
            ).metrics_total.unique
            &&& report.timelines_content_traffic.contains_key(key)
                ==> after.timelines_content_traffic.contains_key(key)
            &&& timeline_of(after.timelines_content_traffic, key).metrics_total.all >= timeline_of(
                report.timelines_content_traffic,
                key,
            ).metrics_total.all
            &&& timeline_of(after.timelines_content_traffic, key).metrics_total.unique >= timeline_of(
                report.timelines_content_traffic,
                key,
            ).metrics_total.unique
            &&& report.fits(data, now) && names(readings(data.referrals@), key)
                ==> after.timelines_referrals.contains_key(key)
            &&& report.fits(data, now) && names(readings(data.content_traffic@), key)
                ==> after.timelines_content_traffic.contains_key(key)
        }),
{
    law_observe_all_never_lowers(report.timelines_referrals, readings(data.referrals@), now, false, key);
    law_observe_all_never_lowers(
        report.timelines_content_traffic,
        readings(data.content_traffic@),
        now,
        false,
        key,
    );
}

} // verus!
