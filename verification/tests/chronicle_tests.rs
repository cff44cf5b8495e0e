use traffic_chronicle::api::FetchError;
use traffic_chronicle::api_models::{
    ModelContentTraffic, ModelReferrer, ModelRepoClonesBiWeekly, ModelRepoClonesDaily,
    ModelRepoClonesHourly, ModelRepoClonesWeekly, ModelRepoViewsBiWeekly, ModelRepoViewsDaily,
    ModelRepoViewsHourly, ModelRepoViewsWeekly,
};
use traffic_chronicle::api::EndpointKind;
use traffic_chronicle::report::{
    ChronicleDocument, CycleResponses, CycleSummary, RepositoryTrafficChronicle, SampleOutcome,
    SeriesOutcome, Snapshot,
};
use traffic_chronicle::scheduler::{MidnightScheduler, SchedulerConfig, SchedulerState};
use traffic_chronicle::report_models::{Metric, QuantifiableEvents, ReportData, Timeline};
use traffic_chronicle::series::KeyedSeries;

fn pair(amount: u64, amount_unique: u64) -> QuantifiableEvents {
    QuantifiableEvents { amount, amount_unique }
}

fn views_daily(entries: &[(&str, u64, u64)]) -> ModelRepoViewsDaily {
    ModelRepoViewsDaily {
        count: entries.iter().map(|e| e.1).sum(),
        uniques: entries.iter().map(|e| e.2).sum(),
        views: entries
            .iter()
            .map(|e| ModelRepoViewsHourly { count: e.1, timestamp: e.0.to_string(), uniques: e.2 })
            .collect(),
    }
}

fn clones_daily(entries: &[(&str, u64, u64)]) -> ModelRepoClonesDaily {
    ModelRepoClonesDaily {
        count: entries.iter().map(|e| e.1).sum(),
        uniques: entries.iter().map(|e| e.2).sum(),
        clones: entries
            .iter()
            .map(|e| ModelRepoClonesHourly { count: e.1, timestamp: e.0.to_string(), uniques: e.2 })
            .collect(),
    }
}

fn views_weekly(entries: &[(&str, u64, u64)]) -> ModelRepoViewsBiWeekly {
    ModelRepoViewsBiWeekly {
        count: entries.iter().map(|e| e.1).sum(),
        uniques: entries.iter().map(|e| e.2).sum(),
        views: entries
            .iter()
            .map(|e| ModelRepoViewsWeekly { count: e.1, timestamp: e.0.to_string(), uniques: e.2 })
            .collect(),
    }
}

fn clones_weekly(entries: &[(&str, u64, u64)]) -> ModelRepoClonesBiWeekly {
    ModelRepoClonesBiWeekly {
        count: entries.iter().map(|e| e.1).sum(),
        uniques: entries.iter().map(|e| e.2).sum(),
        clones: entries
            .iter()
            .map(|e| ModelRepoClonesWeekly { count: e.1, timestamp: e.0.to_string(), uniques: e.2 })
            .collect(),
    }
}

fn referrers(entries: &[(&str, u64, u64)]) -> Vec<ModelReferrer> {
    entries
        .iter()
        .map(|e| ModelReferrer { count: e.1, referrer: e.0.to_string(), uniques: e.2 })
        .collect()
}

fn paths(entries: &[(&str, u64, u64)]) -> Vec<ModelContentTraffic> {
    entries
        .iter()
        .map(|e| ModelContentTraffic {
            count: e.1,
            path: e.0.to_string(),
            title: format!("title of {}", e.0),
            uniques: e.2,
        })
        .collect()
}

fn first_cycle() -> ReportData {
    ReportData {
        biweekly_v: views_weekly(&[("w1", 70, 20), ("w2", 90, 30), ("w3", 5, 2)]),
        biweekly_c: clones_weekly(&[("w1", 7, 2), ("w2", 9, 3)]),
        daily_v: views_daily(&[("h1", 10, 4), ("h2", 7, 2)]),
        daily_c: clones_daily(&[("h1", 1, 1)]),
        referrals: referrers(&[("a.org", 10, 4), ("b.org", 3, 3)]),
        content_traffic: paths(&[("/readme", 8, 5)]),
    }
}

fn second_cycle() -> ReportData {
    ReportData {
        biweekly_v: views_weekly(&[("w1", 70, 20), ("w2", 90, 30), ("w3", 31, 9)]),
        biweekly_c: clones_weekly(&[("w2", 9, 3), ("w3", 4, 4)]),
        daily_v: views_daily(&[("h2", 9, 2), ("h3", 1, 1)]),
        daily_c: clones_daily(&[("h1", 1, 1), ("h2", 6, 2)]),
        referrals: referrers(&[("a.org", 6, 5), ("c.org", 2, 1)]),
        content_traffic: paths(&[("/readme", 11, 5), ("/docs", 1, 1)]),
    }
}

fn all_ok(data: ReportData) -> CycleResponses {
    CycleResponses {
        biweekly_v: Ok(data.biweekly_v),
        biweekly_c: Ok(data.biweekly_c),
        daily_v: Ok(data.daily_v),
        daily_c: Ok(data.daily_c),
        referrals: Ok(data.referrals),
        content_traffic: Ok(data.content_traffic),
    }
}

fn pairs(series: &KeyedSeries<QuantifiableEvents>) -> Vec<(String, u64, u64)> {
    let mut all = Vec::new();
    for i in 0..series.len() {
        let value = series.value_at(i);
        all.push((series.key_at(i).clone(), value.amount, value.amount_unique));
    }
    all.sort();
    all
}

fn timelines(series: &KeyedSeries<Timeline>) -> Vec<(String, Timeline)> {
    let mut all = Vec::new();
    for i in 0..series.len() {
        all.push((series.key_at(i).clone(), series.value_at(i).clone()));
    }
    all.sort_by(|a, b| a.0.cmp(&b.0));
    all
}

fn totals(chronicle: &RepositoryTrafficChronicle) -> [u64; 8] {
    [
        chronicle.total_views,
        chronicle.total_views_unique,
        chronicle.total_clones,
        chronicle.total_clones_unique,
        chronicle.total_referrals,
        chronicle.total_referrals_unique,
        chronicle.total_content_visits,
        chronicle.total_content_visits_unique,
    ]
}

fn same(a: &RepositoryTrafficChronicle, b: &RepositoryTrafficChronicle) -> bool {
    totals(a) == totals(b)
        && pairs(&a.hourly_views) == pairs(&b.hourly_views)
        && pairs(&a.hourly_clones) == pairs(&b.hourly_clones)
        && pairs(&a.weekly_views) == pairs(&b.weekly_views)
        && pairs(&a.weekly_clones) == pairs(&b.weekly_clones)
        && pairs(&a.all_time_referrals) == pairs(&b.all_time_referrals)
        && pairs(&a.all_time_content_paths) == pairs(&b.all_time_content_paths)
        && timelines(&a.weekly_referrals) == timelines(&b.weekly_referrals)
        && timelines(&a.weekly_content_visits) == timelines(&b.weekly_content_visits)
}

#[test]
fn the_default_chronicle_is_empty() {
    let chronicle = RepositoryTrafficChronicle::default();
    assert_eq!(totals(&chronicle), [0; 8]);
    assert_eq!(chronicle.hourly_views.len(), 0);
    assert_eq!(chronicle.hourly_clones.len(), 0);
    assert_eq!(chronicle.weekly_views.len(), 0);
    assert_eq!(chronicle.weekly_clones.len(), 0);
    assert_eq!(chronicle.weekly_referrals.len(), 0);
    assert_eq!(chronicle.weekly_content_visits.len(), 0);
    assert_eq!(chronicle.all_time_referrals.len(), 0);
    assert_eq!(chronicle.all_time_content_paths.len(), 0);
}

#[test]
fn a_first_cycle_fills_the_chronicle() {
    let chronicle = RepositoryTrafficChronicle::new(&first_cycle(), 1_000);
    assert_eq!(totals(&chronicle), [17, 6, 1, 1, 13, 7, 8, 5]);
    assert_eq!(
        pairs(&chronicle.hourly_views),
        vec![("h1".to_string(), 10, 4), ("h2".to_string(), 7, 2)]
    );
    assert_eq!(pairs(&chronicle.hourly_clones), vec![("h1".to_string(), 1, 1)]);
    assert_eq!(
        pairs(&chronicle.weekly_views),
        vec![("w1".to_string(), 70, 20), ("w2".to_string(), 90, 30), ("w3".to_string(), 5, 2)]
    );
    assert_eq!(
        pairs(&chronicle.all_time_referrals),
        vec![("a.org".to_string(), 10, 4), ("b.org".to_string(), 3, 3)]
    );
    assert_eq!(pairs(&chronicle.all_time_content_paths), vec![("/readme".to_string(), 8, 5)]);
    let readme = chronicle.weekly_content_visits.get(&"/readme".to_string()).expect("tracked");
    assert_eq!(readme.metric_timeline.len(), 1);
    assert_eq!(readme.metric_timeline[0].timestamp, 1_000);
    assert_eq!(readme.metric_timeline[0].change_a, 8);
}

#[test]
fn a_later_cycle_is_reconciled_without_counting_twice() {
    let mut chronicle = RepositoryTrafficChronicle::new(&first_cycle(), 1_000);
    chronicle.update(&second_cycle(), 2_000);
    // views: h2 refined 7 -> 9 (+2), h3 new (+1); uniques: +0, +1
    // clones: h1 unchanged, h2 new (+6, +2)
    // referrals: a.org 10 -> 6 (credit 0; uniques 4 -> 5, +1), c.org new (+2, +1)
    // content: /readme 8 -> 11 (+3, +0), /docs new (+1, +1)
    assert_eq!(totals(&chronicle), [20, 7, 7, 3, 15, 9, 12, 6]);
    assert_eq!(
        pairs(&chronicle.hourly_views),
        vec![("h1".to_string(), 10, 4), ("h2".to_string(), 9, 2), ("h3".to_string(), 1, 1)]
    );
    assert_eq!(
        pairs(&chronicle.weekly_views),
        vec![("w1".to_string(), 70, 20), ("w2".to_string(), 90, 30), ("w3".to_string(), 31, 9)]
    );
    assert_eq!(
        pairs(&chronicle.weekly_clones),
        vec![("w1".to_string(), 7, 2), ("w2".to_string(), 9, 3), ("w3".to_string(), 4, 4)]
    );
    assert_eq!(
        pairs(&chronicle.all_time_referrals),
        vec![("a.org".to_string(), 10, 5), ("b.org".to_string(), 3, 3), ("c.org".to_string(), 2, 1)]
    );
    let a = chronicle.weekly_referrals.get(&"a.org".to_string()).expect("tracked");
    assert_eq!(a.metric_timeline.len(), 2);
    assert_eq!(a.metric_timeline[1].change_a, -4);
    assert_eq!(a.metric_timeline[1].change_u, 1);
    assert_eq!(a.metric_timeline[1].paststamp, 1_000);
    assert_eq!(a.metric_timeline[1].pastdelta, 1_000);
    assert_eq!(a.metrics_total, Metric { all: 10, unique: 5 });
    // b.org was not in the second snapshot: its window is observed empty,
    // and its pair stays where it was.
    let b = chronicle.weekly_referrals.get(&"b.org".to_string()).expect("tracked");
    assert_eq!(b.metric_timeline.len(), 2);
    assert_eq!(b.metric_timeline[1].views_a, 0);
    assert_eq!(b.metric_timeline[1].change_a, -3);
    assert_eq!(b.metrics_total, Metric { all: 3, unique: 3 });
}

#[test]
fn merging_the_same_exact_snapshots_twice_is_merging_them_once() {
    let mut once = RepositoryTrafficChronicle::new(&first_cycle(), 1_000);
    let mut twice = RepositoryTrafficChronicle::new(&first_cycle(), 1_000);
    let data = second_cycle();
    for chronicle in [&mut once, &mut twice] {
        chronicle.merge_hourly_views(&data.daily_v);
        chronicle.merge_hourly_clones(&data.daily_c);
        chronicle.merge_weekly_views(&data.biweekly_v);
        chronicle.merge_weekly_clones(&data.biweekly_c);
    }
    twice.merge_hourly_views(&data.daily_v);
    twice.merge_hourly_clones(&data.daily_c);
    twice.merge_weekly_views(&data.biweekly_v);
    twice.merge_weekly_clones(&data.biweekly_c);
    assert!(same(&once, &twice));
}

#[test]
fn totals_never_decrease_from_cycle_to_cycle() {
    let mut chronicle = RepositoryTrafficChronicle::default();
    let cycles = [first_cycle(), second_cycle(), first_cycle(), ReportData::default(), second_cycle()];
    let mut last = totals(&chronicle);
    for (step, cycle) in cycles.iter().enumerate() {
        chronicle.update(cycle, 1_000 * (step as u64 + 1));
        let now = totals(&chronicle);
        for (before, after) in last.iter().zip(now.iter()) {
            assert!(after >= before);
        }
        last = now;
    }
    assert_eq!(&last[..4], &[20, 7, 7, 3]);
}

#[test]
fn a_duplicate_is_equal_and_independent() {
    let chronicle = RepositoryTrafficChronicle::new(&first_cycle(), 1_000);
    let mut copy = chronicle.duplicate();
    assert!(same(&chronicle, &copy));
    copy.update(&second_cycle(), 2_000);
    assert!(!same(&chronicle, &copy));
    assert_eq!(totals(&chronicle), [17, 6, 1, 1, 13, 7, 8, 5]);
}

#[test]
fn a_cycle_whose_fetches_all_succeed_is_reconciled_whole() {
    let mut by_update = RepositoryTrafficChronicle::new(&first_cycle(), 1_000);
    by_update.update(&second_cycle(), 2_000);

    let (mut by_request, started) = RepositoryTrafficChronicle::request_new(&all_ok(first_cycle()), 1_000);
    let summary = by_request.request_update(&all_ok(second_cycle()), 2_000);
    let merged = CycleSummary {
        weekly_views: SeriesOutcome::Merged,
        weekly_clones: SeriesOutcome::Merged,
        hourly_views: SeriesOutcome::Merged,
        hourly_clones: SeriesOutcome::Merged,
        referrals: SeriesOutcome::Merged,
        content_visits: SeriesOutcome::Merged,
    };
    assert_eq!(started, merged);
    assert_eq!(summary, merged);
    assert!(same(&by_update, &by_request));
}

#[test]
fn a_malformed_series_is_skipped_and_the_others_still_merge() {
    let mut chronicle = RepositoryTrafficChronicle::new(&first_cycle(), 1_000);
    let mut responses = all_ok(second_cycle());
    responses.daily_v = Err(FetchError::Malformed);
    responses.referrals = Err(FetchError::Network);
    let summary = chronicle.request_update(&responses, 2_000);
    assert_eq!(
        summary,
        CycleSummary {
            weekly_views: SeriesOutcome::Merged,
            weekly_clones: SeriesOutcome::Merged,
            hourly_views: SeriesOutcome::Skipped(FetchError::Malformed),
            hourly_clones: SeriesOutcome::Merged,
            referrals: SeriesOutcome::Skipped(FetchError::Network),
            content_visits: SeriesOutcome::Merged,
        }
    );
    assert_eq!(totals(&chronicle), [17, 6, 7, 3, 13, 7, 12, 6]);
    assert_eq!(
        pairs(&chronicle.hourly_views),
        vec![("h1".to_string(), 10, 4), ("h2".to_string(), 7, 2)]
    );
    assert_eq!(
        pairs(&chronicle.weekly_views),
        vec![("w1".to_string(), 70, 20), ("w2".to_string(), 90, 30), ("w3".to_string(), 31, 9)]
    );
    assert_eq!(chronicle.weekly_referrals.len(), 2);
    assert_eq!(chronicle.weekly_content_visits.len(), 2);
}

#[test]
fn a_rejected_credential_abandons_the_whole_cycle() {
    let mut chronicle = RepositoryTrafficChronicle::new(&first_cycle(), 1_000);
    let before = chronicle.duplicate();
    let mut responses = all_ok(second_cycle());
    responses.biweekly_c = Err(FetchError::Unauthorized);
    responses.content_traffic = Err(FetchError::RateLimited);
    let summary = chronicle.request_update(&responses, 2_000);
    assert_eq!(
        summary,
        CycleSummary {
            weekly_views: SeriesOutcome::Abandoned,
            weekly_clones: SeriesOutcome::Skipped(FetchError::Unauthorized),
            hourly_views: SeriesOutcome::Abandoned,
            hourly_clones: SeriesOutcome::Abandoned,
            referrals: SeriesOutcome::Abandoned,
            content_visits: SeriesOutcome::Skipped(FetchError::RateLimited),
        }
    );
    assert!(same(&before, &chronicle));
}

#[test]
fn a_series_that_would_overflow_its_total_is_left_alone() {
    let mut chronicle = RepositoryTrafficChronicle::new(&first_cycle(), 1_000);
    chronicle.total_views = u64::MAX - 2;
    chronicle.total_referrals_unique = u64::MAX;
    let before = chronicle.duplicate();
    let summary = chronicle.request_update(&all_ok(second_cycle()), 2_000);
    assert_eq!(summary.hourly_views, SeriesOutcome::Overflowing);
    assert_eq!(summary.referrals, SeriesOutcome::Overflowing);
    assert_eq!(summary.hourly_clones, SeriesOutcome::Merged);
    assert_eq!(summary.content_visits, SeriesOutcome::Merged);
    assert_eq!(chronicle.total_views, u64::MAX - 2);
    assert_eq!(pairs(&chronicle.hourly_views), pairs(&before.hourly_views));
    assert_eq!(timelines(&chronicle.weekly_referrals), timelines(&before.weekly_referrals));
    assert_eq!(pairs(&chronicle.all_time_referrals), pairs(&before.all_time_referrals));
    assert_eq!(chronicle.total_clones, 7);
    assert_eq!(chronicle.total_content_visits, 12);
}

#[test]
fn try_merge_says_whether_the_totals_fit() {
    let mut chronicle = RepositoryTrafficChronicle::default();
    chronicle.total_views = u64::MAX - 16;
    assert!(!chronicle.try_merge_hourly_views(&views_daily(&[("h1", 10, 4), ("h2", 7, 2)])));
    assert_eq!(chronicle.hourly_views.len(), 0);
    assert_eq!(chronicle.total_views, u64::MAX - 16);
    assert!(chronicle.try_merge_hourly_views(&views_daily(&[("h1", 10, 4), ("h2", 6, 2)])));
    assert_eq!(chronicle.total_views, u64::MAX);
    assert_eq!(chronicle.total_views_unique, 6);
    assert_eq!(chronicle.hourly_views.len(), 2);

    assert!(chronicle.try_merge_hourly_clones(&clones_daily(&[("h1", 10, 4)])));
    assert_eq!(chronicle.total_clones, 10);
    assert!(chronicle.try_merge_content_visits(&paths(&[("/a", 3, 1)]), 5, true));
    assert_eq!(chronicle.total_content_visits, 3);
    let a = chronicle.weekly_content_visits.get(&"/a".to_string()).expect("tracked");
    assert!(a.metric_timeline[0].low_confidence);
    assert!(chronicle.try_merge_referrals(&referrers(&[("a.org", 3, 1)]), 5, false));
    assert_eq!(chronicle.total_referrals, 3);
}

#[test]
fn the_dayless_totals_follow_the_example_of_five_polls() {
    let mut chronicle = RepositoryTrafficChronicle::default();
    let observed: [u64; 5] = [100, 100, 80, 80, 95];
    for (step, total) in observed.iter().enumerate() {
        chronicle.merge_referrals(&referrers(&[("a.org", *total, *total)]), 60 * step as u64, false);
    }
    let a = chronicle.weekly_referrals.get(&"a.org".to_string()).expect("tracked");
    let changes: Vec<i64> = a.metric_timeline.iter().map(|e| e.change_a).collect();
    assert_eq!(changes, vec![100, 0, -20, 0, 15]);
    assert_eq!(chronicle.all_time_referrals.get(&"a.org".to_string()), Some(&pair(115, 115)));
    assert_eq!(chronicle.total_referrals, 115);
}

#[test]
fn a_snapshot_is_reconciled_by_the_strategy_of_its_kind() {
    let data = first_cycle();
    let snapshots = vec![
        Snapshot::WeeklyViews(data.biweekly_v.clone()),
        Snapshot::WeeklyClones(data.biweekly_c.clone()),
        Snapshot::HourlyViews(data.daily_v.clone()),
        Snapshot::HourlyClones(data.daily_c.clone()),
        Snapshot::Referrers(data.referrals.clone()),
        Snapshot::PopularPaths(data.content_traffic.clone()),
    ];
    let kinds: Vec<EndpointKind> = snapshots.iter().map(|s| s.endpoint()).collect();
    assert_eq!(
        kinds,
        vec![
            EndpointKind::WeeklyViews,
            EndpointKind::WeeklyClones,
            EndpointKind::HourlyViews,
            EndpointKind::HourlyClones,
            EndpointKind::Referrers,
            EndpointKind::PopularPaths,
        ]
    );
    let mut one_by_one = RepositoryTrafficChronicle::default();
    for snapshot in &snapshots {
        assert!(one_by_one.merge_snapshot(snapshot, 1_000));
    }
    assert!(same(&one_by_one, &RepositoryTrafficChronicle::new(&data, 1_000)));

    one_by_one.total_clones_unique = u64::MAX;
    let before = one_by_one.duplicate();
    assert!(!one_by_one.merge_snapshot(&Snapshot::HourlyClones(clones_daily(&[("h9", 1, 1)])), 2_000));
    assert!(same(&before, &one_by_one));
    assert!(one_by_one.merge_snapshot(&Snapshot::WeeklyClones(clones_weekly(&[("w9", 1, 1)])), 2_000));
    assert_eq!(one_by_one.weekly_clones.len(), 3);
}

#[test]
fn update_reports_what_was_done_and_leaves_an_overflowing_series_alone() {
    let mut chronicle = RepositoryTrafficChronicle::default();
    let merged = CycleSummary {
        weekly_views: SeriesOutcome::Merged,
        weekly_clones: SeriesOutcome::Merged,
        hourly_views: SeriesOutcome::Merged,
        hourly_clones: SeriesOutcome::Merged,
        referrals: SeriesOutcome::Merged,
        content_visits: SeriesOutcome::Merged,
    };
    assert_eq!(chronicle.update(&first_cycle(), 1_000), merged);
    chronicle.total_clones = u64::MAX;
    let summary = chronicle.update(&second_cycle(), 2_000);
    assert_eq!(summary, CycleSummary { hourly_clones: SeriesOutcome::Overflowing, ..merged });
    assert_eq!(chronicle.total_clones, u64::MAX);
    assert_eq!(pairs(&chronicle.hourly_clones), vec![("h1".to_string(), 1, 1)]);
    assert_eq!(chronicle.total_views, 20);
}

#[test]
fn the_same_cycle_twice_changes_no_exact_series_and_no_exact_total() {
    let mut chronicle = RepositoryTrafficChronicle::new(&first_cycle(), 1_000);
    chronicle.update(&second_cycle(), 2_000);
    let once = chronicle.duplicate();
    chronicle.update(&second_cycle(), 3_000);
    assert_eq!(&totals(&chronicle)[..4], &totals(&once)[..4]);
    assert_eq!(pairs(&chronicle.hourly_views), pairs(&once.hourly_views));
    assert_eq!(pairs(&chronicle.hourly_clones), pairs(&once.hourly_clones));
    assert_eq!(pairs(&chronicle.weekly_views), pairs(&once.weekly_views));
    assert_eq!(pairs(&chronicle.weekly_clones), pairs(&once.weekly_clones));
}

#[test]
fn a_stored_pair_is_credited_on_top_and_never_overwritten() {
    let mut chronicle = RepositoryTrafficChronicle::default();
    chronicle.all_time_referrals.insert("k".to_string(), pair(1_000, 1_000));
    chronicle.all_time_content_paths.insert("/p".to_string(), pair(50, 20));
    let data = ReportData {
        referrals: referrers(&[("k", 5, 5)]),
        content_traffic: paths(&[("/q", 1, 1)]),
        ..ReportData::default()
    };
    chronicle.update(&data, 10);
    assert_eq!(chronicle.all_time_referrals.get(&"k".to_string()), Some(&pair(1_005, 1_005)));
    assert_eq!(chronicle.all_time_content_paths.get(&"/p".to_string()), Some(&pair(50, 20)));
    assert_eq!(chronicle.all_time_content_paths.get(&"/q".to_string()), Some(&pair(1, 1)));

    let shrunk = ReportData { referrals: referrers(&[("k", 1, 1)]), ..ReportData::default() };
    chronicle.update(&shrunk, 20);
    assert_eq!(chronicle.all_time_referrals.get(&"k".to_string()), Some(&pair(1_005, 1_005)));
    assert_eq!(chronicle.all_time_content_paths.get(&"/q".to_string()), Some(&pair(1, 1)));
    assert_eq!(chronicle.total_referrals, 5);
}

#[test]
fn a_referrer_that_returns_is_credited_its_whole_window() {
    let mut chronicle = RepositoryTrafficChronicle::default();
    let with = |count: u64| ReportData { referrals: referrers(&[("k", count, count)]), ..ReportData::default() };
    chronicle.update(&with(100), 10);
    chronicle.update(&ReportData::default(), 20);
    chronicle.update(&with(30), 30);
    let k = chronicle.weekly_referrals.get(&"k".to_string()).expect("tracked");
    let changes: Vec<i64> = k.metric_timeline.iter().map(|e| e.change_a).collect();
    assert_eq!(changes, vec![100, -100, 30]);
    assert_eq!(chronicle.all_time_referrals.get(&"k".to_string()), Some(&pair(130, 130)));
    assert_eq!(chronicle.total_referrals, 130);
}

#[test]
fn a_sample_is_reconciled_only_when_it_completes_a_rollover() {
    let day: u64 = 19_800;
    let at = |d: u64, h: u64, m: u64, sec: u64| d * 86_400 + h * 3_600 + m * 60 + sec;
    let config = SchedulerConfig { margin_seconds: 120, retry_seconds: 5, max_samples: 4 };
    let mut scheduler = MidnightScheduler::new(config);
    let mut chronicle = RepositoryTrafficChronicle::default();
    let nothing = SampleOutcome { rollover: None, reconciled: false };

    // At rest the scheduler takes no sample.
    let snapshot = referrers(&[("a.org", 30, 12), ("b.org", 20, 8)]);
    assert_eq!(chronicle.record_referrer_sample(&mut scheduler, &snapshot, at(day, 12, 0, 0), at(day, 12, 0, 1)), nothing);
    assert_eq!(chronicle.weekly_referrals.len(), 0);

    scheduler.tick(at(day, 23, 58, 0));
    assert_eq!(chronicle.record_referrer_sample(&mut scheduler, &snapshot, at(day, 23, 58, 0), at(day, 23, 58, 1)), nothing);
    assert_eq!(scheduler.state, SchedulerState::Armed);
    let after = referrers(&[("a.org", 28, 11), ("b.org", 17, 7)]);
    assert_eq!(chronicle.record_referrer_sample(&mut scheduler, &after, at(day + 1, 0, 0, 30), at(day + 1, 0, 0, 31)), nothing);
    assert_eq!(scheduler.state, SchedulerState::Sampling);
    assert_eq!(chronicle.weekly_referrals.len(), 0);

    let outcome = chronicle.record_referrer_sample(&mut scheduler, &after, at(day + 1, 0, 1, 10), at(day + 1, 0, 1, 11));
    let rollover = outcome.rollover.expect("stable");
    assert!(outcome.reconciled);
    assert_eq!(rollover.expired, 5);
    assert_eq!(rollover.expired_unique, 2);
    assert!(!rollover.low_confidence);
    assert_eq!(scheduler.state, SchedulerState::Idle);
    assert_eq!(chronicle.total_referrals, 45);
    let a = chronicle.weekly_referrals.get(&"a.org".to_string()).expect("tracked");
    assert_eq!(a.metric_timeline[0].timestamp, at(day + 1, 0, 1, 11));
    assert!(!a.metric_timeline[0].low_confidence);
}

#[test]
fn a_sample_of_low_confidence_marks_what_it_records() {
    let day: u64 = 19_800;
    let at = |d: u64, h: u64, m: u64, sec: u64| d * 86_400 + h * 3_600 + m * 60 + sec;
    let config = SchedulerConfig { margin_seconds: 120, retry_seconds: 5, max_samples: 4 };
    let mut scheduler = MidnightScheduler::new(config);
    let mut chronicle = RepositoryTrafficChronicle::default();
    chronicle.total_content_visits = u64::MAX;
    let snapshot = paths(&[("/readme", 8, 5)]);
    scheduler.tick(at(day, 23, 59, 0));
    chronicle.record_path_sample(&mut scheduler, &snapshot, at(day, 23, 59, 0), at(day, 23, 59, 1));
    // Sent before midnight, answered after it.
    chronicle.record_path_sample(&mut scheduler, &snapshot, at(day, 23, 59, 59), at(day + 1, 0, 0, 1));
    let outcome = chronicle.record_path_sample(&mut scheduler, &snapshot, at(day + 1, 0, 0, 5), at(day + 1, 0, 0, 6));
    assert!(outcome.rollover.expect("stable").low_confidence);
    // The content total cannot take the credit: nothing is reconciled.
    assert!(!outcome.reconciled);
    assert_eq!(chronicle.weekly_content_visits.len(), 0);

    chronicle.total_content_visits = 0;
    scheduler.tick(at(day + 1, 23, 59, 0));
    chronicle.record_path_sample(&mut scheduler, &snapshot, at(day + 1, 23, 59, 0), at(day + 1, 23, 59, 1));
    chronicle.record_path_sample(&mut scheduler, &snapshot, at(day + 1, 23, 59, 59), at(day + 2, 0, 0, 1));
    let outcome = chronicle.record_path_sample(&mut scheduler, &snapshot, at(day + 2, 0, 0, 5), at(day + 2, 0, 0, 6));
    assert!(outcome.reconciled);
    let readme = chronicle.weekly_content_visits.get(&"/readme".to_string()).expect("tracked");
    assert!(readme.metric_timeline[0].low_confidence);
    assert_eq!(chronicle.total_content_visits, 8);

    // Window totals beyond 64 bits are not shown to the scheduler.
    scheduler.tick(at(day + 2, 23, 59, 0));
    let before = scheduler;
    let huge = paths(&[("/a", u64::MAX, 1), ("/b", 1, 1)]);
    let outcome = chronicle.record_path_sample(&mut scheduler, &huge, at(day + 2, 23, 59, 0), at(day + 2, 23, 59, 1));
    assert_eq!(outcome, SampleOutcome { rollover: None, reconciled: false });
    assert_eq!(scheduler, before);
}

#[test]
fn a_chronicle_written_out_and_read_back_is_the_same_chronicle() {
    let mut chronicle = RepositoryTrafficChronicle::new(&first_cycle(), 1_000);
    chronicle.update(&second_cycle(), 2_000);
    let document = chronicle.to_document();
    assert_eq!(document.total_views, 20);
    assert_eq!(document.hourly_views.len(), 3);
    assert_eq!(document.weekly_referrals.len(), 3);
    assert!(same(&chronicle, &RepositoryTrafficChronicle::from_document(&document)));

    // The store may hand the pairs back in any order.
    let mut shuffled = document.clone();
    shuffled.hourly_views.reverse();
    shuffled.weekly_clones.sort_by(|a, b| b.0.cmp(&a.0));
    shuffled.weekly_referrals.reverse();
    shuffled.all_time_referrals.rotate_left(1);
    assert!(same(&chronicle, &RepositoryTrafficChronicle::from_document(&shuffled)));

    let empty = RepositoryTrafficChronicle::from_document(&ChronicleDocument::default());
    assert!(same(&empty, &RepositoryTrafficChronicle::default()));
    assert_eq!(RepositoryTrafficChronicle::default().to_document(), ChronicleDocument::default());
}
