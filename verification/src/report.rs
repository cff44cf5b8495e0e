//! The chronicle: the durable, cumulative record of a repository's traffic,
//! and the reconciliation of one polling cycle's snapshots into it.
//!
//! Hourly and weekly counters are kept under their timestamps.  The all-time
//! totals of views and clones advance only with the hourly series: by the
//! whole count of an hour seen for the first time, and by the increase of an
//! hour that the server has refined upward.  Referring sites and content
//! paths are kept as one timeline per key, with the key's best-effort
//! all-time pair beside it.

use vstd::prelude::*;
use crate::api::{EndpointKind, FetchError};
use crate::api_models::{
    ModelContentTraffic, ModelReferrer, ModelRepoClonesBiWeekly, ModelRepoClonesDaily,
    ModelRepoViewsBiWeekly, ModelRepoViewsDaily,
};
use crate::dayless::{
    credit, credit_unique, credited_pairs, dayless_fits, duplicate_timelines, law_pairs_never_fall,
    merge_dayless, merge_dayless_checked, never_lower, observe_all, snapshot_totals,
    timelines_from_pairs, timelines_to_pairs, window_count, window_uniques,
};
use crate::reconcile::{
    gain, gain_unique, law_merge_idempotent, law_merge_keeps_other_keys, law_superset_counts_once,
    lemma_gain_nonnegative, lemma_merge_keeps_keys, merge, merge_exact, merge_exact_checked,
    merge_windowed, occurs_in, readings,
};
use crate::scheduler::{MidnightScheduler, Rollover};
use crate::report_models::{ReportData, Timeline, TimelineView};
use crate::series::{
    distinct_keys, law_pairs_order_is_immaterial, map_of_pairs, pair_views, KeyedSeries,
};

pub use crate::report_models::QuantifiableEvents;

verus! {

/// The cumulative historical record of one repository.
#[derive(Debug)]
pub struct RepositoryTrafficChronicle {
    pub total_views: u64,
    pub total_views_unique: u64,
    pub total_clones: u64,
    pub total_clones_unique: u64,
    pub total_content_visits: u64,
    pub total_content_visits_unique: u64,
    pub total_referrals: u64,
    pub total_referrals_unique: u64,
    /// Best-effort all-time pair of each referring site.
    pub all_time_referrals: KeyedSeries<QuantifiableEvents>,
    /// Best-effort all-time pair of each content path.
    pub all_time_content_paths: KeyedSeries<QuantifiableEvents>,
    pub hourly_views: KeyedSeries<QuantifiableEvents>,
    pub hourly_clones: KeyedSeries<QuantifiableEvents>,
    pub weekly_views: KeyedSeries<QuantifiableEvents>,
    pub weekly_clones: KeyedSeries<QuantifiableEvents>,
    /// The observations of each referring site's fourteen-day window.
    pub weekly_referrals: KeyedSeries<Timeline>,
    /// The observations of each content path's fourteen-day window.
    pub weekly_content_visits: KeyedSeries<Timeline>,
}

/// What a chronicle holds.
pub struct ChronicleView {
    pub total_views: u64,
    pub total_views_unique: u64,
    pub total_clones: u64,
    pub total_clones_unique: u64,
    pub total_content_visits: u64,
    pub total_content_visits_unique: u64,
    pub total_referrals: u64,
    pub total_referrals_unique: u64,
    pub all_time_referrals: Map<Seq<char>, QuantifiableEvents>,
    pub all_time_content_paths: Map<Seq<char>, QuantifiableEvents>,
    pub hourly_views: Map<Seq<char>, QuantifiableEvents>,
    pub hourly_clones: Map<Seq<char>, QuantifiableEvents>,
    pub weekly_views: Map<Seq<char>, QuantifiableEvents>,
    pub weekly_clones: Map<Seq<char>, QuantifiableEvents>,
    pub weekly_referrals: Map<Seq<char>, TimelineView>,
    pub weekly_content_visits: Map<Seq<char>, TimelineView>,
}

impl View for RepositoryTrafficChronicle {
    type V = ChronicleView;

    open spec fn view(&self) -> ChronicleView {
        ChronicleView {
            total_views: self.total_views,
            total_views_unique: self.total_views_unique,
            total_clones: self.total_clones,
            total_clones_unique: self.total_clones_unique,
            total_content_visits: self.total_content_visits,
            total_content_visits_unique: self.total_content_visits_unique,
            total_referrals: self.total_referrals,
            total_referrals_unique: self.total_referrals_unique,
            all_time_referrals: self.all_time_referrals@,
            all_time_content_paths: self.all_time_content_paths@,
            hourly_views: self.hourly_views@,
            hourly_clones: self.hourly_clones@,
            weekly_views: self.weekly_views@,
            weekly_clones: self.weekly_clones@,
            weekly_referrals: self.weekly_referrals@,
            weekly_content_visits: self.weekly_content_visits@,
        }
    }
}

impl ChronicleView {
    /// The chronicle of a first run: nothing recorded, every total zero.
    pub open spec fn empty() -> ChronicleView {
        ChronicleView {
            total_views: 0,
            total_views_unique: 0,
            total_clones: 0,
            total_clones_unique: 0,
            total_content_visits: 0,
            total_content_visits_unique: 0,
            total_referrals: 0,
            total_referrals_unique: 0,
            all_time_referrals: Map::empty(),
            all_time_content_paths: Map::empty(),
            hourly_views: Map::empty(),
            hourly_clones: Map::empty(),
            weekly_views: Map::empty(),
            weekly_clones: Map::empty(),
            weekly_referrals: Map::empty(),
            weekly_content_visits: Map::empty(),
        }
    }

    /// The view totals still fit in 64 bits once the hourly views are merged.
    pub open spec fn hourly_views_fit(self, snapshot: ModelRepoViewsDaily) -> bool {
        &&& self.total_views + gain(self.hourly_views, readings(snapshot.views@)) <= u64::MAX
        &&& self.total_views_unique + gain_unique(self.hourly_views, readings(snapshot.views@))
            <= u64::MAX
    }

    /// The chronicle after a snapshot of hourly views is merged.
    pub open spec fn with_hourly_views(self, snapshot: ModelRepoViewsDaily) -> ChronicleView {
        ChronicleView {
            total_views: (self.total_views + gain(self.hourly_views, readings(snapshot.views@))) as u64,
            total_views_unique: (self.total_views_unique + gain_unique(
                self.hourly_views,
                readings(snapshot.views@),
            )) as u64,
            hourly_views: merge(self.hourly_views, readings(snapshot.views@)),
            ..self
        }
    }

    /// The clone totals still fit in 64 bits once the hourly clones are
    /// merged.
    pub open spec fn hourly_clones_fit(self, snapshot: ModelRepoClonesDaily) -> bool {
        &&& self.total_clones + gain(self.hourly_clones, readings(snapshot.clones@)) <= u64::MAX
        &&& self.total_clones_unique + gain_unique(self.hourly_clones, readings(snapshot.clones@))
            <= u64::MAX
    }

    /// The chronicle after a snapshot of hourly clones is merged.
    pub open spec fn with_hourly_clones(self, snapshot: ModelRepoClonesDaily) -> ChronicleView {
        ChronicleView {
            total_clones: (self.total_clones + gain(self.hourly_clones, readings(snapshot.clones@))) as u64,
            total_clones_unique: (self.total_clones_unique + gain_unique(
                self.hourly_clones,
                readings(snapshot.clones@),
            )) as u64,
            hourly_clones: merge(self.hourly_clones, readings(snapshot.clones@)),
            ..self
        }
    }

    /// The chronicle after a snapshot of weekly views is merged.
    pub open spec fn with_weekly_views(self, snapshot: ModelRepoViewsBiWeekly) -> ChronicleView {
        ChronicleView { weekly_views: merge(self.weekly_views, readings(snapshot.views@)), ..self }
    }

    /// The chronicle after a snapshot of weekly clones is merged.
    pub open spec fn with_weekly_clones(self, snapshot: ModelRepoClonesBiWeekly) -> ChronicleView {
        ChronicleView { weekly_clones: merge(self.weekly_clones, readings(snapshot.clones@)), ..self }
    }

    /// The referral total and every referring site's own all-time pair
    /// still fit in 64 bits once the referrers are observed.
    pub open spec fn referrals_fit(
        self,
        snapshot: Seq<ModelReferrer>,
        now: u64,
        low_confidence: bool,
    ) -> bool {
        dayless_fits(
            (QuantifiableEvents {
                amount: self.total_referrals,
                amount_unique: self.total_referrals_unique,
            }),
            self.all_time_referrals,
            self.weekly_referrals,
            readings(snapshot),
            now,
            low_confidence,
        )
    }

    /// The chronicle after a snapshot of referring sites, read at `now`, is
    /// observed: every site gets its observation, and what the observation
    /// is credited is added to the site's all-time pair and to the referral
    /// total.
    pub open spec fn with_referrals(
        self,
        snapshot: Seq<ModelReferrer>,
        now: u64,
        low_confidence: bool,
    ) -> ChronicleView {
        let timelines = observe_all(self.weekly_referrals, readings(snapshot), now, low_confidence);
        ChronicleView {
            total_referrals: (self.total_referrals + credit(
                self.weekly_referrals,
                readings(snapshot),
                now,
                low_confidence,
            )) as u64,
            total_referrals_unique: (self.total_referrals_unique + credit_unique(
                self.weekly_referrals,
                readings(snapshot),
                now,
                low_confidence,
            )) as u64,
            weekly_referrals: timelines,
            all_time_referrals: credited_pairs(
                self.all_time_referrals,
                self.weekly_referrals,
                readings(snapshot),
                now,
                low_confidence,
            ),
            ..self
        }
    }

    /// The content total and every content path's own all-time pair still
    /// fit in 64 bits once the content paths are observed.
    pub open spec fn content_visits_fit(
        self,
        snapshot: Seq<ModelContentTraffic>,
        now: u64,
        low_confidence: bool,
    ) -> bool {
        dayless_fits(
            (QuantifiableEvents {
                amount: self.total_content_visits,
                amount_unique: self.total_content_visits_unique,
            }),
            self.all_time_content_paths,
            self.weekly_content_visits,
            readings(snapshot),
            now,
            low_confidence,
        )
    }

    /// The chronicle after a snapshot of content paths, read at `now`, is
    /// observed.
    pub open spec fn with_content_visits(
        self,
        snapshot: Seq<ModelContentTraffic>,
        now: u64,
        low_confidence: bool,
    ) -> ChronicleView {
        let timelines = observe_all(self.weekly_content_visits, readings(snapshot), now, low_confidence);
        ChronicleView {
            total_content_visits: (self.total_content_visits + credit(
                self.weekly_content_visits,
                readings(snapshot),
                now,
                low_confidence,
            )) as u64,
            total_content_visits_unique: (self.total_content_visits_unique + credit_unique(
                self.weekly_content_visits,
                readings(snapshot),
                now,
                low_confidence,
            )) as u64,
            weekly_content_visits: timelines,
            all_time_content_paths: credited_pairs(
                self.all_time_content_paths,
                self.weekly_content_visits,
                readings(snapshot),
                now,
                low_confidence,
            ),
            ..self
        }
    }

    /// The chronicle after a whole cycle's snapshots, read at `now`, are
    /// reconciled: each series on its own, and each only if its totals
    /// still fit in 64 bits afterwards.
    pub open spec fn updated(self, data: ReportData, now: u64) -> ChronicleView {
        self.reconciled(all_fetched(data), now)
    }

    /// The totals still fit in 64 bits once the snapshot is reconciled.
    /// Weekly snapshots feed no total and always fit.
    pub open spec fn snapshot_fits(self, snapshot: Snapshot, now: u64) -> bool {
        match snapshot {
            Snapshot::HourlyViews(views) => self.hourly_views_fit(views),
            Snapshot::WeeklyViews(_) => true,
            Snapshot::HourlyClones(clones) => self.hourly_clones_fit(clones),
            Snapshot::WeeklyClones(_) => true,
            Snapshot::Referrers(referrers) => self.referrals_fit(referrers@, now, false),
            Snapshot::PopularPaths(paths) => self.content_visits_fit(paths@, now, false),
        }
    }

    /// The chronicle after a snapshot, read at `now`, is reconciled by the
    /// strategy of its kind.
    pub open spec fn with_snapshot(self, snapshot: Snapshot, now: u64) -> ChronicleView {
        match snapshot {
            Snapshot::HourlyViews(views) => self.with_hourly_views(views),
            Snapshot::WeeklyViews(views) => self.with_weekly_views(views),
            Snapshot::HourlyClones(clones) => self.with_hourly_clones(clones),
            Snapshot::WeeklyClones(clones) => self.with_weekly_clones(clones),
            Snapshot::Referrers(referrers) => self.with_referrals(referrers@, now, false),
            Snapshot::PopularPaths(paths) => self.with_content_visits(paths@, now, false),
        }
    }

    /// The chronicle after the answer to the fetch of the weekly views is
    /// dealt with: merged if there is a snapshot, else left alone.
    pub open spec fn after_weekly_views(
        self,
        response: Result<ModelRepoViewsBiWeekly, FetchError>,
    ) -> ChronicleView {
        match response {
            Ok(snapshot) => self.with_weekly_views(snapshot),
            Err(_) => self,
        }
    }

    /// The chronicle after the answer to the fetch of the weekly clones is
    /// dealt with.
    pub open spec fn after_weekly_clones(
        self,
        response: Result<ModelRepoClonesBiWeekly, FetchError>,
    ) -> ChronicleView {
        match response {
            Ok(snapshot) => self.with_weekly_clones(snapshot),
            Err(_) => self,
        }
    }

    /// The chronicle after the answer to the fetch of the hourly views is
    /// dealt with: merged if there is a snapshot and the totals still fit,
    /// else left alone.
    pub open spec fn after_hourly_views(
        self,
        response: Result<ModelRepoViewsDaily, FetchError>,
    ) -> ChronicleView {
        match response {
            Ok(snapshot) => if self.hourly_views_fit(snapshot) {
                self.with_hourly_views(snapshot)
            } else {
                self
            },
            Err(_) => self,
        }
    }

    /// The chronicle after the answer to the fetch of the hourly clones is
    /// dealt with.
    pub open spec fn after_hourly_clones(
        self,
        response: Result<ModelRepoClonesDaily, FetchError>,
    ) -> ChronicleView {
        match response {
            Ok(snapshot) => if self.hourly_clones_fit(snapshot) {
                self.with_hourly_clones(snapshot)
            } else {
                self
            },
            Err(_) => self,
        }
    }

    /// The chronicle after the answer to the fetch of the referring sites is
    /// dealt with.
    pub open spec fn after_referrals(
        self,
        response: Result<Vec<ModelReferrer>, FetchError>,
        now: u64,
    ) -> ChronicleView {
        match response {
            Ok(snapshot) => if self.referrals_fit(snapshot@, now, false) {
                self.with_referrals(snapshot@, now, false)
            } else {
                self
            },
            Err(_) => self,
        }
    }

    /// The chronicle after the answer to the fetch of the content paths is
    /// dealt with.
    pub open spec fn after_content_visits(
        self,
        response: Result<Vec<ModelContentTraffic>, FetchError>,
        now: u64,
    ) -> ChronicleView {
        match response {
            Ok(snapshot) => if self.content_visits_fit(snapshot@, now, false) {
                self.with_content_visits(snapshot@, now, false)
            } else {
                self
            },
            Err(_) => self,
        }
    }

    /// The chronicle after one polling cycle whose fetches came back with
    /// `responses` at `now`.  A rejected credential abandons the cycle and
    /// leaves the chronicle as it is.  Otherwise every series that was
    /// fetched is reconciled, whatever became of the others.
    pub open spec fn reconciled(self, responses: CycleResponses, now: u64) -> ChronicleView {
        if responses.credential_rejected() {
            self
        } else {
            self.after_weekly_views(responses.biweekly_v).after_weekly_clones(
                responses.biweekly_c,
            ).after_hourly_views(responses.daily_v).after_hourly_clones(responses.daily_c).after_referrals(
                responses.referrals,
                now,
            ).after_content_visits(responses.content_traffic, now)
        }
    }

    /// What one polling cycle does with each series.
    pub open spec fn summary(self, responses: CycleResponses, now: u64) -> CycleSummary {
        let rejected = responses.credential_rejected();
        CycleSummary {
            weekly_views: outcome_of(responses.biweekly_v, rejected, true),
            weekly_clones: outcome_of(responses.biweekly_c, rejected, true),
            hourly_views: outcome_of(
                responses.daily_v,
                rejected,
                responses.daily_v is Ok && self.hourly_views_fit(responses.daily_v->Ok_0),
            ),
            hourly_clones: outcome_of(
                responses.daily_c,
                rejected,
                responses.daily_c is Ok && self.hourly_clones_fit(responses.daily_c->Ok_0),
            ),
            referrals: outcome_of(
                responses.referrals,
                rejected,
                responses.referrals is Ok && self.referrals_fit(responses.referrals->Ok_0@, now, false),
            ),
            content_visits: outcome_of(
                responses.content_traffic,
                rejected,
                responses.content_traffic is Ok && self.content_visits_fit(
                    responses.content_traffic->Ok_0@,
                    now,
                    false,
                ),
            ),
        }
    }
}

/// A chronicle written out as plain values, ready to be stored: the totals,
/// and every series as a list of pairs of a key and what is stored for it.
#[derive(Debug, Clone, PartialEq, Eq, Default)]
pub struct ChronicleDocument {
    pub total_views: u64,
    pub total_views_unique: u64,
    pub total_clones: u64,
    pub total_clones_unique: u64,
    pub total_content_visits: u64,
    pub total_content_visits_unique: u64,
    pub total_referrals: u64,
    pub total_referrals_unique: u64,
    pub all_time_referrals: Vec<(String, QuantifiableEvents)>,
    pub all_time_content_paths: Vec<(String, QuantifiableEvents)>,
    pub hourly_views: Vec<(String, QuantifiableEvents)>,
    pub hourly_clones: Vec<(String, QuantifiableEvents)>,
    pub weekly_views: Vec<(String, QuantifiableEvents)>,
    pub weekly_clones: Vec<(String, QuantifiableEvents)>,
    pub weekly_referrals: Vec<(String, Timeline)>,
    pub weekly_content_visits: Vec<(String, Timeline)>,
}

/// Two lists hold the same pairs, in whatever order.
pub open spec fn same_pairs<T>(p: Seq<(Seq<char>, T)>, q: Seq<(Seq<char>, T)>) -> bool {
    &&& forall|i: int| 0 <= i < p.len() ==> q.contains(#[trigger] p[i])
    &&& forall|j: int| 0 <= j < q.len() ==> p.contains(#[trigger] q[j])
}

impl ChronicleDocument {
    /// The chronicle that the document stands for; of pairs with the same
    /// key the later one counts.
    pub open spec fn chronicle(self) -> ChronicleView {
        ChronicleView {
            total_views: self.total_views,
            total_views_unique: self.total_views_unique,
            total_clones: self.total_clones,
            total_clones_unique: self.total_clones_unique,
            total_content_visits: self.total_content_visits,
            total_content_visits_unique: self.total_content_visits_unique,
            total_referrals: self.total_referrals,
            total_referrals_unique: self.total_referrals_unique,
            all_time_referrals: map_of_pairs(pair_views(self.all_time_referrals@)),
            all_time_content_paths: map_of_pairs(pair_views(self.all_time_content_paths@)),
            hourly_views: map_of_pairs(pair_views(self.hourly_views@)),
            hourly_clones: map_of_pairs(pair_views(self.hourly_clones@)),
            weekly_views: map_of_pairs(pair_views(self.weekly_views@)),
            weekly_clones: map_of_pairs(pair_views(self.weekly_clones@)),
            weekly_referrals: map_of_pairs(pair_views(self.weekly_referrals@)),
            weekly_content_visits: map_of_pairs(pair_views(self.weekly_content_visits@)),
        }
    }

    /// No list of the document names a key twice.
    pub open spec fn keys_distinct(self) -> bool {
        &&& distinct_keys(pair_views(self.all_time_referrals@))
        &&& distinct_keys(pair_views(self.all_time_content_paths@))
        &&& distinct_keys(pair_views(self.hourly_views@))
        &&& distinct_keys(pair_views(self.hourly_clones@))
        &&& distinct_keys(pair_views(self.weekly_views@))
        &&& distinct_keys(pair_views(self.weekly_clones@))
        &&& distinct_keys(pair_views(self.weekly_referrals@))
        &&& distinct_keys(pair_views(self.weekly_content_visits@))
    }

    /// The other document holds the same totals and, list by list, the same
    /// pairs, in whatever order.
    pub open spec fn same_content(self, other: ChronicleDocument) -> bool {
        &&& self.total_views == other.total_views
        &&& self.total_views_unique == other.total_views_unique
        &&& self.total_clones == other.total_clones
        &&& self.total_clones_unique == other.total_clones_unique
        &&& self.total_content_visits == other.total_content_visits
        &&& self.total_content_visits_unique == other.total_content_visits_unique
        &&& self.total_referrals == other.total_referrals
        &&& self.total_referrals_unique == other.total_referrals_unique
        &&& same_pairs(pair_views(self.all_time_referrals@), pair_views(other.all_time_referrals@))
        &&& same_pairs(
            pair_views(self.all_time_content_paths@),
            pair_views(other.all_time_content_paths@),
        )
        &&& same_pairs(pair_views(self.hourly_views@), pair_views(other.hourly_views@))
        &&& same_pairs(pair_views(self.hourly_clones@), pair_views(other.hourly_clones@))
        &&& same_pairs(pair_views(self.weekly_views@), pair_views(other.weekly_views@))
        &&& same_pairs(pair_views(self.weekly_clones@), pair_views(other.weekly_clones@))
        &&& same_pairs(pair_views(self.weekly_referrals@), pair_views(other.weekly_referrals@))
        &&& same_pairs(
            pair_views(self.weekly_content_visits@),
            pair_views(other.weekly_content_visits@),
        )
    }
}

/// What one endpoint answered: the snapshot of one series, tagged with its
/// kind.  The kind selects the strategy by which it is reconciled.
#[derive(Debug, PartialEq, Eq)]
pub enum Snapshot {
    HourlyViews(ModelRepoViewsDaily),
    WeeklyViews(ModelRepoViewsBiWeekly),
    HourlyClones(ModelRepoClonesDaily),
    WeeklyClones(ModelRepoClonesBiWeekly),
    Referrers(Vec<ModelReferrer>),
    PopularPaths(Vec<ModelContentTraffic>),
}

impl Snapshot {
    /// The endpoint that answers with this kind of snapshot.
    pub open spec fn kind(self) -> EndpointKind {
        match self {
            Snapshot::HourlyViews(_) => EndpointKind::HourlyViews,
            Snapshot::WeeklyViews(_) => EndpointKind::WeeklyViews,
            Snapshot::HourlyClones(_) => EndpointKind::HourlyClones,
            Snapshot::WeeklyClones(_) => EndpointKind::WeeklyClones,
            Snapshot::Referrers(_) => EndpointKind::Referrers,
            Snapshot::PopularPaths(_) => EndpointKind::PopularPaths,
        }
    }

    /// The endpoint that answers with this kind of snapshot.
    pub fn endpoint(&self) -> (kind: EndpointKind)
        ensures
            kind == self.kind(),
    {
        match self {
            Snapshot::HourlyViews(_) => EndpointKind::HourlyViews,
            Snapshot::WeeklyViews(_) => EndpointKind::WeeklyViews,
            Snapshot::HourlyClones(_) => EndpointKind::HourlyClones,
            Snapshot::WeeklyClones(_) => EndpointKind::WeeklyClones,
            Snapshot::Referrers(_) => EndpointKind::Referrers,
            Snapshot::PopularPaths(_) => EndpointKind::PopularPaths,
        }
    }
}

/// What the fetches of one polling cycle came back with, series by series.
#[derive(Debug, PartialEq, Eq)]
pub struct CycleResponses {
    pub biweekly_v: Result<ModelRepoViewsBiWeekly, FetchError>,
    pub biweekly_c: Result<ModelRepoClonesBiWeekly, FetchError>,
    pub daily_v: Result<ModelRepoViewsDaily, FetchError>,
    pub daily_c: Result<ModelRepoClonesDaily, FetchError>,
    pub referrals: Result<Vec<ModelReferrer>, FetchError>,
    pub content_traffic: Result<Vec<ModelContentTraffic>, FetchError>,
}

/// What a polling cycle did with one series.
#[derive(Debug, Clone, Copy, PartialEq, Eq, Structural)]
pub enum SeriesOutcome {
    /// The snapshot was reconciled into the chronicle.
    Merged,
    /// The fetch failed; the series was left alone for this cycle.
    Skipped(FetchError),
    /// The snapshot was fetched, but the cycle was abandoned because the
    /// credential was rejected.
    Abandoned,
    /// The snapshot was fetched, but reconciling it would carry an all-time
    /// total beyond 64 bits; the series was left alone.
    Overflowing,
}

/// What a polling cycle did with each of the six series.
#[derive(Debug, Clone, Copy, PartialEq, Eq)]
pub struct CycleSummary {
    pub weekly_views: SeriesOutcome,
    pub weekly_clones: SeriesOutcome,
    pub hourly_views: SeriesOutcome,
    pub hourly_clones: SeriesOutcome,
    pub referrals: SeriesOutcome,
    pub content_visits: SeriesOutcome,
}

/// The answers of a cycle all of whose fetches succeeded.
pub open spec fn all_fetched(data: ReportData) -> CycleResponses {
    CycleResponses {
        biweekly_v: Ok(data.biweekly_v),
        biweekly_c: Ok(data.biweekly_c),
        daily_v: Ok(data.daily_v),
        daily_c: Ok(data.daily_c),
        referrals: Ok(data.referrals),
        content_traffic: Ok(data.content_traffic),
    }
}

/// What came of one sample around midnight.
#[derive(Debug, Clone, Copy, PartialEq, Eq)]
pub struct SampleOutcome {
    /// The rollover that the sample completed, if it completed one.
    pub rollover: Option<Rollover>,
    /// Whether the sampled snapshot was reconciled into the chronicle.
    pub reconciled: bool,
}

/// The fetch failed because the credential was rejected.
pub open spec fn rejected<T>(response: Result<T, FetchError>) -> bool {
    response matches Err(error) && error == FetchError::Unauthorized
}

/// What a cycle does with a series, given what its fetch came back with,
/// whether the cycle is abandoned, and whether the totals would still fit.
pub open spec fn outcome_of<T>(
    response: Result<T, FetchError>,
    abandoned: bool,
    fits: bool,
) -> SeriesOutcome {
    match response {
        Err(error) => SeriesOutcome::Skipped(error),
        Ok(_) => if abandoned {
            SeriesOutcome::Abandoned
        } else if fits {
            SeriesOutcome::Merged
        } else {
            SeriesOutcome::Overflowing
        },
    }
}

/// The fetch failed because the credential was rejected.
pub fn is_rejected<T>(response: &Result<T, FetchError>) -> (answer: bool)
    ensures
        answer == rejected(*response),
{
    match response {
        Err(FetchError::Unauthorized) => true,
        _ => false,
    }
}

impl CycleResponses {
    /// Some fetch of the cycle failed because the credential was rejected:
    /// the cycle is abandoned.
    pub open spec fn credential_rejected(self) -> bool {
        ||| rejected(self.biweekly_v)
        ||| rejected(self.biweekly_c)
        ||| rejected(self.daily_v)
        ||| rejected(self.daily_c)
        ||| rejected(self.referrals)
        ||| rejected(self.content_traffic)
    }

    /// Some fetch of the cycle failed because the credential was rejected.
    pub fn is_credential_rejected(&self) -> (answer: bool)
        ensures
            answer == self.credential_rejected(),
    {
        is_rejected(&self.biweekly_v) || is_rejected(&self.biweekly_c) || is_rejected(&self.daily_v)
            || is_rejected(&self.daily_c) || is_rejected(&self.referrals) || is_rejected(
            &self.content_traffic,
        )
    }
}

impl Default for RepositoryTrafficChronicle {
    /// The chronicle of a first run.
    fn default() -> (chronicle: Self)
        ensures
            chronicle@ == ChronicleView::empty(),
    {
        RepositoryTrafficChronicle {
            total_views: 0,
            total_views_unique: 0,
            total_clones: 0,
            total_clones_unique: 0,
            total_content_visits: 0,
            total_content_visits_unique: 0,
            total_referrals: 0,
            total_referrals_unique: 0,
            all_time_referrals: KeyedSeries::new(),
            all_time_content_paths: KeyedSeries::new(),
            hourly_views: KeyedSeries::new(),
            hourly_clones: KeyedSeries::new(),
            weekly_views: KeyedSeries::new(),
            weekly_clones: KeyedSeries::new(),
            weekly_referrals: KeyedSeries::new(),
            weekly_content_visits: KeyedSeries::new(),
        }
    }
}

impl RepositoryTrafficChronicle {
    /// A copy of the chronicle.
    pub fn duplicate(&self) -> (copy: RepositoryTrafficChronicle)
        ensures
            copy@ == self@,
    {
        RepositoryTrafficChronicle {
            total_views: self.total_views,
            total_views_unique: self.total_views_unique,
            total_clones: self.total_clones,
            total_clones_unique: self.total_clones_unique,
            total_content_visits: self.total_content_visits,
            total_content_visits_unique: self.total_content_visits_unique,
            total_referrals: self.total_referrals,
            total_referrals_unique: self.total_referrals_unique,
            all_time_referrals: self.all_time_referrals.duplicate(),
            all_time_content_paths: self.all_time_content_paths.duplicate(),
            hourly_views: self.hourly_views.duplicate(),
            hourly_clones: self.hourly_clones.duplicate(),
            weekly_views: self.weekly_views.duplicate(),
            weekly_clones: self.weekly_clones.duplicate(),
            weekly_referrals: duplicate_timelines(&self.weekly_referrals),
            weekly_content_visits: duplicate_timelines(&self.weekly_content_visits),
        }
    }

    /// Writes the chronicle out as a document: the totals as they are, and
    /// every series as the list of its pairs, no key twice.
    pub fn to_document(&self) -> (document: ChronicleDocument)
        ensures
            document.keys_distinct(),
            document.chronicle() == self@,
    {
        ChronicleDocument {
            total_views: self.total_views,
            total_views_unique: self.total_views_unique,
            total_clones: self.total_clones,
            total_clones_unique: self.total_clones_unique,
            total_content_visits: self.total_content_visits,
            total_content_visits_unique: self.total_content_visits_unique,
            total_referrals: self.total_referrals,
            total_referrals_unique: self.total_referrals_unique,
            all_time_referrals: self.all_time_referrals.to_pairs(),
            all_time_content_paths: self.all_time_content_paths.to_pairs(),
            hourly_views: self.hourly_views.to_pairs(),
            hourly_clones: self.hourly_clones.to_pairs(),
            weekly_views: self.weekly_views.to_pairs(),
            weekly_clones: self.weekly_clones.to_pairs(),
            weekly_referrals: timelines_to_pairs(&self.weekly_referrals),
            weekly_content_visits: timelines_to_pairs(&self.weekly_content_visits),
        }
    }

    /// The chronicle that a document stands for.
    pub fn from_document(document: &ChronicleDocument) -> (chronicle: Self)
        ensures
            chronicle@ == document.chronicle(),
    {
        RepositoryTrafficChronicle {
            total_views: document.total_views,
            total_views_unique: document.total_views_unique,
            total_clones: document.total_clones,
            total_clones_unique: document.total_clones_unique,
            total_content_visits: document.total_content_visits,
            total_content_visits_unique: document.total_content_visits_unique,
            total_referrals: document.total_referrals,
            total_referrals_unique: document.total_referrals_unique,
            all_time_referrals: KeyedSeries::from_pairs(&document.all_time_referrals),
            all_time_content_paths: KeyedSeries::from_pairs(&document.all_time_content_paths),
            hourly_views: KeyedSeries::from_pairs(&document.hourly_views),
            hourly_clones: KeyedSeries::from_pairs(&document.hourly_clones),
            weekly_views: KeyedSeries::from_pairs(&document.weekly_views),
            weekly_clones: KeyedSeries::from_pairs(&document.weekly_clones),
            weekly_referrals: timelines_from_pairs(&document.weekly_referrals),
            weekly_content_visits: timelines_from_pairs(&document.weekly_content_visits),
        }
    }

    /// Merges a snapshot of hourly views and advances the view totals by its
    /// gain.
    pub fn merge_hourly_views(&mut self, snapshot: &ModelRepoViewsDaily)
        requires
            old(self)@.hourly_views_fit(*snapshot),
        ensures
            final(self)@ == old(self)@.with_hourly_views(*snapshot),
            final(self).total_views >= old(self).total_views,
            final(self).total_views_unique >= old(self).total_views_unique,
    {
        let total = QuantifiableEvents {
            amount: self.total_views,
            amount_unique: self.total_views_unique,
        };
        let next = merge_exact(&mut self.hourly_views, &snapshot.views, total);
        self.total_views = next.amount;
        self.total_views_unique = next.amount_unique;
    }

    /// Merges a snapshot of hourly clones and advances the clone totals by
    /// its gain.
    pub fn merge_hourly_clones(&mut self, snapshot: &ModelRepoClonesDaily)
        requires
            old(self)@.hourly_clones_fit(*snapshot),
        ensures
            final(self)@ == old(self)@.with_hourly_clones(*snapshot),
            final(self).total_clones >= old(self).total_clones,
            final(self).total_clones_unique >= old(self).total_clones_unique,
    {
        let total = QuantifiableEvents {
            amount: self.total_clones,
            amount_unique: self.total_clones_unique,
        };
        let next = merge_exact(&mut self.hourly_clones, &snapshot.clones, total);
        self.total_clones = next.amount;
        self.total_clones_unique = next.amount_unique;
    }

    /// Merges a snapshot of weekly views.  No total advances.
    pub fn merge_weekly_views(&mut self, snapshot: &ModelRepoViewsBiWeekly)
        ensures
            final(self)@ == old(self)@.with_weekly_views(*snapshot),
    {
        merge_windowed(&mut self.weekly_views, &snapshot.views);
    }

    /// Merges a snapshot of weekly clones.  No total advances.
    pub fn merge_weekly_clones(&mut self, snapshot: &ModelRepoClonesBiWeekly)
        ensures
            final(self)@ == old(self)@.with_weekly_clones(*snapshot),
    {
        merge_windowed(&mut self.weekly_clones, &snapshot.clones);
    }

    /// Observes a snapshot of referring sites that was read at `now`.
    pub fn merge_referrals(&mut self, snapshot: &Vec<ModelReferrer>, now: u64, low_confidence: bool)
        requires
            old(self)@.referrals_fit(snapshot@, now, low_confidence),
        ensures
            final(self)@ == old(self)@.with_referrals(snapshot@, now, low_confidence),
            final(self).total_referrals >= old(self).total_referrals,
            final(self).total_referrals_unique >= old(self).total_referrals_unique,
            never_lower(old(self)@.all_time_referrals, final(self)@.all_time_referrals),
    {
        let total = QuantifiableEvents {
            amount: self.total_referrals,
            amount_unique: self.total_referrals_unique,
        };
        let next = merge_dayless(
            &mut self.weekly_referrals,
            &mut self.all_time_referrals,
            snapshot,
            now,
            low_confidence,
            total,
        );
        self.total_referrals = next.amount;
        self.total_referrals_unique = next.amount_unique;
    }

    /// Observes a snapshot of content paths that was read at `now`.
    pub fn merge_content_visits(
        &mut self,
        snapshot: &Vec<ModelContentTraffic>,
        now: u64,
        low_confidence: bool,
    )
        requires
            old(self)@.content_visits_fit(snapshot@, now, low_confidence),
        ensures
            final(self)@ == old(self)@.with_content_visits(snapshot@, now, low_confidence),
            final(self).total_content_visits >= old(self).total_content_visits,
            final(self).total_content_visits_unique >= old(self).total_content_visits_unique,
            never_lower(old(self)@.all_time_content_paths, final(self)@.all_time_content_paths),
    {
        let total = QuantifiableEvents {
            amount: self.total_content_visits,
            amount_unique: self.total_content_visits_unique,
        };
        let next = merge_dayless(
            &mut self.weekly_content_visits,
            &mut self.all_time_content_paths,
            snapshot,
            now,
            low_confidence,
            total,
        );
        self.total_content_visits = next.amount;
        self.total_content_visits_unique = next.amount_unique;
    }

    /// Merges a snapshot of hourly views if the view totals still fit in 64
    /// bits afterwards, and says whether it did.  Otherwise the chronicle
    /// stays as it is.
    pub fn try_merge_hourly_views(&mut self, snapshot: &ModelRepoViewsDaily) -> (merged: bool)
        ensures
            merged == old(self)@.hourly_views_fit(*snapshot),
            merged ==> final(self)@ == old(self)@.with_hourly_views(*snapshot),
            !merged ==> final(self)@ == old(self)@,
            final(self).total_views >= old(self).total_views,
            final(self).total_views_unique >= old(self).total_views_unique,
    {
        let total = QuantifiableEvents {
            amount: self.total_views,
            amount_unique: self.total_views_unique,
        };
        let mut scratch = self.hourly_views.duplicate();
        proof {
            lemma_gain_nonnegative(self.hourly_views@, readings(snapshot.views@));
        }
        match merge_exact_checked(&mut scratch, &snapshot.views, total) {
            Some(next) => {
                self.hourly_views = scratch;
                self.total_views = next.amount;
                self.total_views_unique = next.amount_unique;
                true
            },
            None => false,
        }
    }

    /// Merges a snapshot of hourly clones if the clone totals still fit in
    /// 64 bits afterwards, and says whether it did.  Otherwise the chronicle
    /// stays as it is.
    pub fn try_merge_hourly_clones(&mut self, snapshot: &ModelRepoClonesDaily) -> (merged: bool)
        ensures
            merged == old(self)@.hourly_clones_fit(*snapshot),
            merged ==> final(self)@ == old(self)@.with_hourly_clones(*snapshot),
            !merged ==> final(self)@ == old(self)@,
            final(self).total_clones >= old(self).total_clones,
            final(self).total_clones_unique >= old(self).total_clones_unique,
    {
        let total = QuantifiableEvents {
            amount: self.total_clones,
            amount_unique: self.total_clones_unique,
        };
        let mut scratch = self.hourly_clones.duplicate();
        proof {
            lemma_gain_nonnegative(self.hourly_clones@, readings(snapshot.clones@));
        }
        match merge_exact_checked(&mut scratch, &snapshot.clones, total) {
            Some(next) => {
                self.hourly_clones = scratch;
                self.total_clones = next.amount;
                self.total_clones_unique = next.amount_unique;
                true
            },
            None => false,
        }
    }

    /// Observes a snapshot of referring sites, read at `now`, if the
    /// referral totals still fit in 64 bits afterwards, and says whether it
    /// did.  Otherwise the chronicle stays as it is.
    pub fn try_merge_referrals(
        &mut self,
        snapshot: &Vec<ModelReferrer>,
        now: u64,
        low_confidence: bool,
    ) -> (merged: bool)
        ensures
            merged == old(self)@.referrals_fit(snapshot@, now, low_confidence),
            merged ==> final(self)@ == old(self)@.with_referrals(snapshot@, now, low_confidence),
            !merged ==> final(self)@ == old(self)@,
            final(self).total_referrals >= old(self).total_referrals,
            final(self).total_referrals_unique >= old(self).total_referrals_unique,
            never_lower(old(self)@.all_time_referrals, final(self)@.all_time_referrals),
    {
        let total = QuantifiableEvents {
            amount: self.total_referrals,
            amount_unique: self.total_referrals_unique,
        };
        let mut scratch = duplicate_timelines(&self.weekly_referrals);
        let mut pairs = self.all_time_referrals.duplicate();
        proof {
            if self@.referrals_fit(snapshot@, now, low_confidence) {
                law_pairs_never_fall(
                    self.all_time_referrals@,
                    self.weekly_referrals@,
                    readings(snapshot@),
                    now,
                    low_confidence,
                );
            }
        }
        match merge_dayless_checked(&mut scratch, &mut pairs, snapshot, now, low_confidence, total) {
            Some(next) => {
                self.weekly_referrals = scratch;
                self.all_time_referrals = pairs;
                self.total_referrals = next.amount;
                self.total_referrals_unique = next.amount_unique;
                true
            },
            None => false,
        }
    }

    /// Observes a snapshot of content paths, read at `now`, if the content
    /// totals still fit in 64 bits afterwards, and says whether it did.
    /// Otherwise the chronicle stays as it is.
    pub fn try_merge_content_visits(
        &mut self,
        snapshot: &Vec<ModelContentTraffic>,
        now: u64,
        low_confidence: bool,
    ) -> (merged: bool)
        ensures
            merged == old(self)@.content_visits_fit(snapshot@, now, low_confidence),
            merged ==> final(self)@ == old(self)@.with_content_visits(snapshot@, now, low_confidence),
            !merged ==> final(self)@ == old(self)@,
            final(self).total_content_visits >= old(self).total_content_visits,
            final(self).total_content_visits_unique >= old(self).total_content_visits_unique,
            never_lower(old(self)@.all_time_content_paths, final(self)@.all_time_content_paths),
    {
        let total = QuantifiableEvents {
            amount: self.total_content_visits,
            amount_unique: self.total_content_visits_unique,
        };
        let mut scratch = duplicate_timelines(&self.weekly_content_visits);
        let mut pairs = self.all_time_content_paths.duplicate();
        proof {
            if self@.content_visits_fit(snapshot@, now, low_confidence) {
                law_pairs_never_fall(
                    self.all_time_content_paths@,
                    self.weekly_content_visits@,
                    readings(snapshot@),
                    now,
                    low_confidence,
                );
            }
        }
        match merge_dayless_checked(&mut scratch, &mut pairs, snapshot, now, low_confidence, total) {
            Some(next) => {
                self.weekly_content_visits = scratch;
                self.all_time_content_paths = pairs;
                self.total_content_visits = next.amount;
                self.total_content_visits_unique = next.amount_unique;
                true
            },
            None => false,
        }
    }

    /// Reconciles one snapshot, read at `now`, by the strategy of its kind,
    /// if the totals still fit in 64 bits afterwards, and says whether it
    /// did.  Otherwise the chronicle stays as it is.
    pub fn merge_snapshot(&mut self, snapshot: &Snapshot, now: u64) -> (merged: bool)
        ensures
            merged == old(self)@.snapshot_fits(*snapshot, now),
            merged ==> final(self)@ == old(self)@.with_snapshot(*snapshot, now),
            !merged ==> final(self)@ == old(self)@,
            never_lower(old(self)@.all_time_referrals, final(self)@.all_time_referrals),
            never_lower(old(self)@.all_time_content_paths, final(self)@.all_time_content_paths),
    {
        match snapshot {
            Snapshot::HourlyViews(views) => self.try_merge_hourly_views(views),
            Snapshot::WeeklyViews(views) => {
                self.merge_weekly_views(views);
                true
            },
            Snapshot::HourlyClones(clones) => self.try_merge_hourly_clones(clones),
            Snapshot::WeeklyClones(clones) => {
                self.merge_weekly_clones(clones);
                true
            },
            Snapshot::Referrers(referrers) => self.try_merge_referrals(referrers, now, false),
            Snapshot::PopularPaths(paths) => self.try_merge_content_visits(paths, now, false),
        }
    }

    /// Runs the reconciling half of one polling cycle: takes what the six
    /// fetches came back with at `timestamp`, reconciles every series that
    /// was fetched, and reports what was done with each.
    ///
    /// A failed fetch leaves its own series alone and no other.  A rejected
    /// credential abandons the whole cycle: nothing is reconciled.  A series
    /// whose totals would pass 64 bits is left alone as well.
    pub fn request_update(
        &mut self,
        responses: &CycleResponses,
        timestamp: u64,
    ) -> (summary: CycleSummary)
        ensures
            final(self)@ == old(self)@.reconciled(*responses, timestamp),
            summary == old(self)@.summary(*responses, timestamp),
            never_lower(old(self)@.all_time_referrals, final(self)@.all_time_referrals),
            never_lower(old(self)@.all_time_content_paths, final(self)@.all_time_content_paths),
            final(self).total_views >= old(self).total_views,
            final(self).total_views_unique >= old(self).total_views_unique,
            final(self).total_clones >= old(self).total_clones,
            final(self).total_clones_unique >= old(self).total_clones_unique,
            final(self).total_referrals >= old(self).total_referrals,
            final(self).total_referrals_unique >= old(self).total_referrals_unique,
            final(self).total_content_visits >= old(self).total_content_visits,
            final(self).total_content_visits_unique >= old(self).total_content_visits_unique,
    {
        let abandoned = responses.is_credential_rejected();
        let weekly_views = match &responses.biweekly_v {
            Err(error) => SeriesOutcome::Skipped(*error),
            Ok(snapshot) => if abandoned {
                SeriesOutcome::Abandoned
            } else {
                self.merge_weekly_views(snapshot);
                SeriesOutcome::Merged
            },
        };
        let weekly_clones = match &responses.biweekly_c {
            Err(error) => SeriesOutcome::Skipped(*error),
            Ok(snapshot) => if abandoned {
                SeriesOutcome::Abandoned
            } else {
                self.merge_weekly_clones(snapshot);
                SeriesOutcome::Merged
            },
        };
        let hourly_views = match &responses.daily_v {
            Err(error) => SeriesOutcome::Skipped(*error),
            Ok(snapshot) => if abandoned {
                SeriesOutcome::Abandoned
            } else if self.try_merge_hourly_views(snapshot) {
                SeriesOutcome::Merged
            } else {
                SeriesOutcome::Overflowing
            },
        };
        let hourly_clones = match &responses.daily_c {
            Err(error) => SeriesOutcome::Skipped(*error),
            Ok(snapshot) => if abandoned {
                SeriesOutcome::Abandoned
            } else if self.try_merge_hourly_clones(snapshot) {
                SeriesOutcome::Merged
            } else {
                SeriesOutcome::Overflowing
            },
        };
        let referrals = match &responses.referrals {
            Err(error) => SeriesOutcome::Skipped(*error),
            Ok(snapshot) => if abandoned {
                SeriesOutcome::Abandoned
            } else if self.try_merge_referrals(snapshot, timestamp, false) {
                SeriesOutcome::Merged
            } else {
                SeriesOutcome::Overflowing
            },
        };
        let content_visits = match &responses.content_traffic {
            Err(error) => SeriesOutcome::Skipped(*error),
            Ok(snapshot) => if abandoned {
                SeriesOutcome::Abandoned
            } else if self.try_merge_content_visits(snapshot, timestamp, false) {
                SeriesOutcome::Merged
            } else {
                SeriesOutcome::Overflowing
            },
        };
        CycleSummary {
            weekly_views,
            weekly_clones,
            hourly_views,
            hourly_clones,
            referrals,
            content_visits,
        }
    }

    /// Runs the reconciling half of a first polling cycle: starts from the
    /// empty chronicle and reconciles what the six fetches came back with.
    pub fn request_new(
        responses: &CycleResponses,
        timestamp: u64,
    ) -> (started: (Self, CycleSummary))
        ensures
            started.0@ == ChronicleView::empty().reconciled(*responses, timestamp),
            started.1 == ChronicleView::empty().summary(*responses, timestamp),
    {
        let mut chronicle = RepositoryTrafficChronicle::default();
        let summary = chronicle.request_update(responses, timestamp);
        (chronicle, summary)
    }

    /// Reconciles the six snapshots of one polling cycle, read at
    /// `timestamp`, into the chronicle, and reports what was done with each.
    /// A series whose totals would pass 64 bits is left alone; every other
    /// series is reconciled.
    pub fn update(&mut self, api_data: &ReportData, timestamp: u64) -> (summary: CycleSummary)
        ensures
            final(self)@ == old(self)@.updated(*api_data, timestamp),
            summary == old(self)@.summary(all_fetched(*api_data), timestamp),
            never_lower(old(self)@.all_time_referrals, final(self)@.all_time_referrals),
            never_lower(old(self)@.all_time_content_paths, final(self)@.all_time_content_paths),
            final(self).total_views >= old(self).total_views,
            final(self).total_views_unique >= old(self).total_views_unique,
            final(self).total_clones >= old(self).total_clones,
            final(self).total_clones_unique >= old(self).total_clones_unique,
            final(self).total_referrals >= old(self).total_referrals,
            final(self).total_referrals_unique >= old(self).total_referrals_unique,
            final(self).total_content_visits >= old(self).total_content_visits,
            final(self).total_content_visits_unique >= old(self).total_content_visits_unique,
    {
        self.merge_weekly_views(&api_data.biweekly_v);
        self.merge_weekly_clones(&api_data.biweekly_c);
        let hourly_views = if self.try_merge_hourly_views(&api_data.daily_v) {
            SeriesOutcome::Merged
        } else {
            SeriesOutcome::Overflowing
        };
        let hourly_clones = if self.try_merge_hourly_clones(&api_data.daily_c) {
            SeriesOutcome::Merged
        } else {
            SeriesOutcome::Overflowing
        };
        let referrals = if self.try_merge_referrals(&api_data.referrals, timestamp, false) {
            SeriesOutcome::Merged
        } else {
            SeriesOutcome::Overflowing
        };
        let content_visits = if self.try_merge_content_visits(
            &api_data.content_traffic,
            timestamp,
            false,
        ) {
            SeriesOutcome::Merged
        } else {
            SeriesOutcome::Overflowing
        };
        CycleSummary {
            weekly_views: SeriesOutcome::Merged,
            weekly_clones: SeriesOutcome::Merged,
            hourly_views,
            hourly_clones,
            referrals,
            content_visits,
        }
    }

    /// The chronicle of a first run after its first polling cycle: the empty
    /// chronicle with the cycle's snapshots reconciled into it.
    pub fn new(api_data: &ReportData, timestamp: u64) -> (chronicle: Self)
        ensures
            chronicle@ == ChronicleView::empty().updated(*api_data, timestamp),
    {
        let mut chronicle = RepositoryTrafficChronicle::default();
        let _ = chronicle.update(api_data, timestamp);
        chronicle
    }

    /// Takes one sample of the referring sites around midnight: hands the
    /// snapshot's window totals to the scheduler, and reconciles the
    /// snapshot once the scheduler hands out a rollover, marked with the
    /// rollover's confidence.  A snapshot that completes no rollover is not
    /// reconciled, nor is one whose totals would pass 64 bits; a snapshot
    /// whose window totals pass 64 bits is not even shown to the scheduler.
    pub fn record_referrer_sample(
        &mut self,
        scheduler: &mut MidnightScheduler,
        snapshot: &Vec<ModelReferrer>,
        sent_at: u64,
        received_at: u64,
    ) -> (outcome: SampleOutcome)
        ensures
            *final(scheduler) == sampled_scheduler(
                *old(scheduler),
                readings(snapshot@),
                sent_at,
                received_at,
            ),
            outcome.rollover == sampled_rollover(
                *old(scheduler),
                readings(snapshot@),
                sent_at,
                received_at,
            ),
            outcome.reconciled == (outcome.rollover is Some && old(self)@.referrals_fit(
                snapshot@,
                received_at,
                outcome.rollover->Some_0.low_confidence,
            )),
            outcome.reconciled ==> final(self)@ == old(self)@.with_referrals(
                snapshot@,
                received_at,
                outcome.rollover->Some_0.low_confidence,
            ),
            !outcome.reconciled ==> final(self)@ == old(self)@,
            never_lower(old(self)@.all_time_referrals, final(self)@.all_time_referrals),
            final(self).total_referrals >= old(self).total_referrals,
            final(self).total_referrals_unique >= old(self).total_referrals_unique,
    {
        let totals = match snapshot_totals(snapshot) {
            Some(totals) => totals,
            None => {
                return SampleOutcome { rollover: None, reconciled: false };
            },
        };
        match scheduler.record(sent_at, received_at, totals.amount, totals.amount_unique) {
            Some(rollover) => {
                let reconciled = self.try_merge_referrals(snapshot, received_at, rollover.low_confidence);
                SampleOutcome { rollover: Some(rollover), reconciled }
            },
            None => SampleOutcome { rollover: None, reconciled: false },
        }
    }

    /// Takes one sample of the content paths around midnight, as
    /// [`Self::record_referrer_sample`] does for the referring sites.
    pub fn record_path_sample(
        &mut self,
        scheduler: &mut MidnightScheduler,
        snapshot: &Vec<ModelContentTraffic>,
        sent_at: u64,
        received_at: u64,
    ) -> (outcome: SampleOutcome)
        ensures
            *final(scheduler) == sampled_scheduler(
                *old(scheduler),
                readings(snapshot@),
                sent_at,
                received_at,
            ),
            outcome.rollover == sampled_rollover(
                *old(scheduler),
                readings(snapshot@),
                sent_at,
                received_at,
            ),
            outcome.reconciled == (outcome.rollover is Some && old(self)@.content_visits_fit(
                snapshot@,
                received_at,
                outcome.rollover->Some_0.low_confidence,
            )),
            outcome.reconciled ==> final(self)@ == old(self)@.with_content_visits(
                snapshot@,
                received_at,
                outcome.rollover->Some_0.low_confidence,
            ),
            !outcome.reconciled ==> final(self)@ == old(self)@,
            never_lower(old(self)@.all_time_content_paths, final(self)@.all_time_content_paths),
            final(self).total_content_visits >= old(self).total_content_visits,
            final(self).total_content_visits_unique >= old(self).total_content_visits_unique,
    {
        let totals = match snapshot_totals(snapshot) {
            Some(totals) => totals,
            None => {
                return SampleOutcome { rollover: None, reconciled: false };
            },
        };
        match scheduler.record(sent_at, received_at, totals.amount, totals.amount_unique) {
            Some(rollover) => {
                let reconciled = self.try_merge_content_visits(
                    snapshot,
                    received_at,
                    rollover.low_confidence,
                );
                SampleOutcome { rollover: Some(rollover), reconciled }
            },
            None => SampleOutcome { rollover: None, reconciled: false },
        }
    }
}

/// The window totals of a snapshot fit in 64 bits.
pub open spec fn window_fits(rs: Seq<crate::reconcile::Reading>) -> bool {
    window_count(rs) <= u64::MAX && window_uniques(rs) <= u64::MAX
}

/// The scheduler after it is shown the window totals of a sampled snapshot;
/// it is not shown totals that pass 64 bits.
pub open spec fn sampled_scheduler(
    scheduler: MidnightScheduler,
    rs: Seq<crate::reconcile::Reading>,
    sent_at: u64,
    received_at: u64,
) -> MidnightScheduler {
    if window_fits(rs) {
        scheduler.after_record(
            sent_at,
            received_at,
            window_count(rs) as u64,
            window_uniques(rs) as u64,
        )
    } else {
        scheduler
    }
}

/// The rollover that a sampled snapshot completes, if it completes one.
pub open spec fn sampled_rollover(
    scheduler: MidnightScheduler,
    rs: Seq<crate::reconcile::Reading>,
    sent_at: u64,
    received_at: u64,
) -> Option<Rollover> {
    if window_fits(rs) {
        scheduler.rollover_on(
            sent_at,
            received_at,
            window_count(rs) as u64,
            window_uniques(rs) as u64,
        )
    } else {
        None
    }
}

/// **Idempotence.**  A chronicle into which an hourly or weekly snapshot
/// has been merged is the chronicle into which it has been merged twice in a
/// row: the second merge changes no series and no total.
pub proof fn law_exact_snapshot_merges_once(chronicle: ChronicleView, data: ReportData)
    requires
        chronicle.hourly_views_fit(data.daily_v),
        chronicle.hourly_clones_fit(data.daily_c),
    ensures
        chronicle.with_hourly_views(data.daily_v).hourly_views_fit(data.daily_v),
        chronicle.with_hourly_views(data.daily_v).with_hourly_views(data.daily_v)
            == chronicle.with_hourly_views(data.daily_v),
        chronicle.with_hourly_clones(data.daily_c).hourly_clones_fit(data.daily_c),
        chronicle.with_hourly_clones(data.daily_c).with_hourly_clones(data.daily_c)
            == chronicle.with_hourly_clones(data.daily_c),
        chronicle.with_weekly_views(data.biweekly_v).with_weekly_views(data.biweekly_v)
            == chronicle.with_weekly_views(data.biweekly_v),
        chronicle.with_weekly_clones(data.biweekly_c).with_weekly_clones(data.biweekly_c)
            == chronicle.with_weekly_clones(data.biweekly_c),
{
    law_merge_idempotent(chronicle.hourly_views, readings(data.daily_v.views@));
    law_merge_idempotent(chronicle.hourly_clones, readings(data.daily_c.clones@));
    law_merge_idempotent(chronicle.weekly_views, readings(data.biweekly_v.views@));
    law_merge_idempotent(chronicle.weekly_clones, readings(data.biweekly_c.clones@));
    lemma_gain_nonnegative(chronicle.hourly_views, readings(data.daily_v.views@));
    lemma_gain_nonnegative(chronicle.hourly_clones, readings(data.daily_c.clones@));
}

/// **No double counting.**  Where every hourly entry of snapshot `a` occurs
/// in snapshot `b` with the same values, merging `a` and then `b` leaves the
/// chronicle, its view totals among the rest, exactly where merging `b`
/// alone leaves it.
pub proof fn law_superset_snapshot_counts_once(
    chronicle: ChronicleView,
    a: ModelRepoViewsDaily,
    b: ModelRepoViewsDaily,
)
    requires
        forall|i: int|
            0 <= i < a.views.len() ==> occurs_in(#[trigger] readings(a.views@)[i], readings(b.views@)),
        chronicle.hourly_views_fit(b),
    ensures
        chronicle.hourly_views_fit(a),
        chronicle.with_hourly_views(a).hourly_views_fit(b),
        chronicle.with_hourly_views(a).with_hourly_views(b) == chronicle.with_hourly_views(b),
{
    law_superset_counts_once(chronicle.hourly_views, readings(a.views@), readings(b.views@));
    lemma_gain_nonnegative(chronicle.hourly_views, readings(a.views@));
    lemma_gain_nonnegative(
        merge(chronicle.hourly_views, readings(a.views@)),
        readings(b.views@),
    );
}

/// **Monotonicity.**  Whatever the fetches of a polling cycle came back
/// with, no total of the chronicle is lower after the cycle than before it.
pub proof fn law_cycle_never_lowers_a_total(
    chronicle: ChronicleView,
    responses: CycleResponses,
    now: u64,
)
    ensures
        chronicle.reconciled(responses, now).total_views >= chronicle.total_views,
        chronicle.reconciled(responses, now).total_views_unique >= chronicle.total_views_unique,
        chronicle.reconciled(responses, now).total_clones >= chronicle.total_clones,
        chronicle.reconciled(responses, now).total_clones_unique >= chronicle.total_clones_unique,
        chronicle.reconciled(responses, now).total_referrals >= chronicle.total_referrals,
        chronicle.reconciled(responses, now).total_referrals_unique >= chronicle.total_referrals_unique,
        chronicle.reconciled(responses, now).total_content_visits >= chronicle.total_content_visits,
        chronicle.reconciled(responses, now).total_content_visits_unique
            >= chronicle.total_content_visits_unique,
{
    if !responses.credential_rejected() {
        if responses.daily_v is Ok {
            lemma_gain_nonnegative(chronicle.hourly_views, readings(responses.daily_v->Ok_0.views@));
        }
        if responses.daily_c is Ok {
            lemma_gain_nonnegative(chronicle.hourly_clones, readings(responses.daily_c->Ok_0.clones@));
        }
    }
}

/// **Failures are isolated.**  Unless a rejected credential abandons the
/// cycle, what a cycle makes of one series depends on the answer to that
/// series' own fetch and on nothing else: each series and its totals come
/// out as if the other five fetches had not taken place, and a series whose
/// fetch failed stays as it was.
pub proof fn law_series_are_isolated(chronicle: ChronicleView, responses: CycleResponses, now: u64)
    requires
        !responses.credential_rejected(),
    ensures
        ({
            let after = chronicle.reconciled(responses, now);
            let weekly_views = chronicle.after_weekly_views(responses.biweekly_v);
            let weekly_clones = chronicle.after_weekly_clones(responses.biweekly_c);
            let hourly_views = chronicle.after_hourly_views(responses.daily_v);
            let hourly_clones = chronicle.after_hourly_clones(responses.daily_c);
            let referrals = chronicle.after_referrals(responses.referrals, now);
            let content = chronicle.after_content_visits(responses.content_traffic, now);
            &&& after.weekly_views == weekly_views.weekly_views
            &&& after.weekly_clones == weekly_clones.weekly_clones
            &&& after.hourly_views == hourly_views.hourly_views
            &&& after.total_views == hourly_views.total_views
            &&& after.total_views_unique == hourly_views.total_views_unique
            &&& after.hourly_clones == hourly_clones.hourly_clones
            &&& after.total_clones == hourly_clones.total_clones
            &&& after.total_clones_unique == hourly_clones.total_clones_unique
            &&& after.weekly_referrals == referrals.weekly_referrals
            &&& after.all_time_referrals == referrals.all_time_referrals
            &&& after.total_referrals == referrals.total_referrals
            &&& after.total_referrals_unique == referrals.total_referrals_unique
            &&& after.weekly_content_visits == content.weekly_content_visits
            &&& after.all_time_content_paths == content.all_time_content_paths
            &&& after.total_content_visits == content.total_content_visits
            &&& after.total_content_visits_unique == content.total_content_visits_unique
        }),
        responses.biweekly_v is Err ==> chronicle.reconciled(responses, now).weekly_views
            == chronicle.weekly_views,
        responses.biweekly_c is Err ==> chronicle.reconciled(responses, now).weekly_clones
            == chronicle.weekly_clones,
        responses.daily_v is Err ==> chronicle.reconciled(responses, now).hourly_views
            == chronicle.hourly_views,
        responses.daily_c is Err ==> chronicle.reconciled(responses, now).hourly_clones
            == chronicle.hourly_clones,
        responses.referrals is Err ==> chronicle.reconciled(responses, now).weekly_referrals
            == chronicle.weekly_referrals,
        responses.content_traffic is Err ==> chronicle.reconciled(
            responses,
            now,
        ).weekly_content_visits == chronicle.weekly_content_visits,
{
}

/// **The same cycle twice.**  Reconciling the same snapshots a second time,
/// at whatever time, leaves the hourly and the weekly series and the totals
/// of views and clones exactly as the first time left them; nothing needs to
/// be known of the chronicle or of the snapshots for that.
pub proof fn law_same_cycle_twice(chronicle: ChronicleView, data: ReportData, now: u64, later: u64)
    ensures
        ({
            let once = chronicle.updated(data, now);
            let twice = once.updated(data, later);
            &&& twice.hourly_views == once.hourly_views
            &&& twice.hourly_clones == once.hourly_clones
            &&& twice.weekly_views == once.weekly_views
            &&& twice.weekly_clones == once.weekly_clones
            &&& twice.total_views == once.total_views
            &&& twice.total_views_unique == once.total_views_unique
            &&& twice.total_clones == once.total_clones
            &&& twice.total_clones_unique == once.total_clones_unique
        }),
{
    let once = chronicle.updated(data, now);
    law_merge_idempotent(chronicle.hourly_views, readings(data.daily_v.views@));
    law_merge_idempotent(chronicle.hourly_clones, readings(data.daily_c.clones@));
    law_merge_idempotent(chronicle.weekly_views, readings(data.biweekly_v.views@));
    law_merge_idempotent(chronicle.weekly_clones, readings(data.biweekly_c.clones@));
    lemma_gain_nonnegative(chronicle.hourly_views, readings(data.daily_v.views@));
    lemma_gain_nonnegative(chronicle.hourly_clones, readings(data.daily_c.clones@));
    assert(once.hourly_views == chronicle.after_hourly_views(Ok(data.daily_v)).hourly_views);
    assert(once.total_views == chronicle.after_hourly_views(Ok(data.daily_v)).total_views);
    assert(once.total_views_unique == chronicle.after_hourly_views(
        Ok(data.daily_v),
    ).total_views_unique);
    assert(once.hourly_clones == chronicle.after_hourly_clones(Ok(data.daily_c)).hourly_clones);
    assert(once.total_clones == chronicle.after_hourly_clones(Ok(data.daily_c)).total_clones);
    assert(once.total_clones_unique == chronicle.after_hourly_clones(
        Ok(data.daily_c),
    ).total_clones_unique);
}

/// **No key's all-time pair ever falls.**  Whatever the fetches of a polling
/// cycle came back with, every referring site and every content path that
/// has an all-time pair before the cycle has one after it, and neither count
/// of the pair is lower.
pub proof fn law_cycle_never_lowers_a_pair(
    chronicle: ChronicleView,
    responses: CycleResponses,
    now: u64,
)
    ensures
        never_lower(chronicle.all_time_referrals, chronicle.reconciled(responses, now).all_time_referrals),
        never_lower(
            chronicle.all_time_content_paths,
            chronicle.reconciled(responses, now).all_time_content_paths,
        ),
{
    if !responses.credential_rejected() {
        if responses.referrals is Ok && chronicle.referrals_fit(responses.referrals->Ok_0@, now, false) {
            law_pairs_never_fall(
                chronicle.all_time_referrals,
                chronicle.weekly_referrals,
                readings(responses.referrals->Ok_0@),
                now,
                false,
            );
        }
        if responses.content_traffic is Ok && chronicle.content_visits_fit(
            responses.content_traffic->Ok_0@,
            now,
            false,
        ) {
            law_pairs_never_fall(
                chronicle.all_time_content_paths,
                chronicle.weekly_content_visits,
                readings(responses.content_traffic->Ok_0@),
                now,
                false,
            );
        }
    }
}

/// **Stored entries stay.**  A polling cycle removes no hour and no week
/// from the chronicle, and an hour or week that the matching snapshot does
/// not name is stored after the cycle exactly as before it: a week that has
/// left the reported window never changes again.
pub proof fn law_cycle_keeps_stored_entries(
    chronicle: ChronicleView,
    data: ReportData,
    now: u64,
    key: Seq<char>,
)
    ensures
        ({
            let after = chronicle.updated(data, now);
            &&& chronicle.weekly_views.contains_key(key) ==> after.weekly_views.contains_key(key)
            &&& chronicle.weekly_clones.contains_key(key) ==> after.weekly_clones.contains_key(key)
            &&& chronicle.hourly_views.contains_key(key) ==> after.hourly_views.contains_key(key)
            &&& chronicle.hourly_clones.contains_key(key) ==> after.hourly_clones.contains_key(key)
            &&& chronicle.weekly_views.contains_key(key) && !crate::dayless::names(
                readings(data.biweekly_v.views@),
                key,
            ) ==> after.weekly_views[key] == chronicle.weekly_views[key]
            &&& chronicle.weekly_clones.contains_key(key) && !crate::dayless::names(
                readings(data.biweekly_c.clones@),
                key,
            ) ==> after.weekly_clones[key] == chronicle.weekly_clones[key]
            &&& chronicle.hourly_views.contains_key(key) && !crate::dayless::names(
                readings(data.daily_v.views@),
                key,
            ) ==> after.hourly_views[key] == chronicle.hourly_views[key]
            &&& chronicle.hourly_clones.contains_key(key) && !crate::dayless::names(
                readings(data.daily_c.clones@),
                key,
            ) ==> after.hourly_clones[key] == chronicle.hourly_clones[key]
        }),
{
    let wv = readings(data.biweekly_v.views@);
    let wc = readings(data.biweekly_c.clones@);
    let hv = readings(data.daily_v.views@);
    let hc = readings(data.daily_c.clones@);
    if chronicle.weekly_views.contains_key(key) {
        lemma_merge_keeps_keys(chronicle.weekly_views, wv, key);
        if !crate::dayless::names(wv, key) {
            law_merge_keeps_other_keys(chronicle.weekly_views, wv, key);
        }
    }
    if chronicle.weekly_clones.contains_key(key) {
        lemma_merge_keeps_keys(chronicle.weekly_clones, wc, key);
        if !crate::dayless::names(wc, key) {
            law_merge_keeps_other_keys(chronicle.weekly_clones, wc, key);
        }
    }
    if chronicle.hourly_views.contains_key(key) {
        lemma_merge_keeps_keys(chronicle.hourly_views, hv, key);
        if !crate::dayless::names(hv, key) {
            law_merge_keeps_other_keys(chronicle.hourly_views, hv, key);
        }
    }
    if chronicle.hourly_clones.contains_key(key) {
        lemma_merge_keeps_keys(chronicle.hourly_clones, hc, key);
        if !crate::dayless::names(hc, key) {
            law_merge_keeps_other_keys(chronicle.hourly_clones, hc, key);
        }
    }
}

/// **Round trip.**  A chronicle that is written out as a document and read
/// back from a document that holds the same totals and the same pairs, in
/// whatever order its store returns them, is the chronicle that was written.
pub proof fn law_document_round_trip(
    chronicle: ChronicleView,
    written: ChronicleDocument,
    read: ChronicleDocument,
)
    requires
        written.keys_distinct(),
        written.chronicle() == chronicle,
        read.keys_distinct(),
        written.same_content(read),
    ensures
        read.chronicle() == chronicle,
{
    law_pairs_order_is_immaterial(
        pair_views(written.all_time_referrals@),
        pair_views(read.all_time_referrals@),
    );
    law_pairs_order_is_immaterial(
        pair_views(written.all_time_content_paths@),
        pair_views(read.all_time_content_paths@),
    );
    law_pairs_order_is_immaterial(pair_views(written.hourly_views@), pair_views(read.hourly_views@));
    law_pairs_order_is_immaterial(pair_views(written.hourly_clones@), pair_views(read.hourly_clones@));
    law_pairs_order_is_immaterial(pair_views(written.weekly_views@), pair_views(read.weekly_views@));
    law_pairs_order_is_immaterial(pair_views(written.weekly_clones@), pair_views(read.weekly_clones@));
    law_pairs_order_is_immaterial(
        pair_views(written.weekly_referrals@),
        pair_views(read.weekly_referrals@),
    );
    law_pairs_order_is_immaterial(
        pair_views(written.weekly_content_visits@),
        pair_views(read.weekly_content_visits@),
    );
}

} // verus!
