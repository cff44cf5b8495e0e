use traffic_chronicle::api_models::{
    ModelContentTraffic, ModelReferrer, ModelRepoClonesBiWeekly, ModelRepoClonesDaily,
    ModelRepoClonesHourly, ModelRepoClonesWeekly, ModelRepoViewsBiWeekly, ModelRepoViewsDaily,
    ModelRepoViewsHourly, ModelRepoViewsWeekly,
};
use traffic_chronicle::paired::{merge_reading_side, merge_side_exact, merge_side_windowed, Side};
use traffic_chronicle::paired::merge_side_exact_checked;
use traffic_chronicle::report_models::{
    Metric, Report, ReportData, Timeline, TotalsOverflow, ViewCloneMetric,
};
use traffic_chronicle::reporter::{generate_new_report, update_existing_report};
use traffic_chronicle::series::KeyedSeries;

fn metric(all: u64, unique: u64) -> Metric {
    Metric { all, unique }
}

fn both(views: (u64, u64), clones: (u64, u64)) -> ViewCloneMetric {
    ViewCloneMetric { views: metric(views.0, views.1), clones: metric(clones.0, clones.1) }
}

fn hour(timestamp: &str, count: u64, uniques: u64) -> ModelRepoViewsHourly {
    ModelRepoViewsHourly { count, timestamp: timestamp.to_string(), uniques }
}

fn first_cycle() -> ReportData {
    ReportData {
        biweekly_v: ModelRepoViewsBiWeekly {
            count: 160,
            uniques: 50,
            views: vec![
                ModelRepoViewsWeekly { count: 70, timestamp: "w1".to_string(), uniques: 20 },
                ModelRepoViewsWeekly { count: 90, timestamp: "w2".to_string(), uniques: 30 },
            ],
        },
        biweekly_c: ModelRepoClonesBiWeekly {
            count: 7,
            uniques: 2,
            clones: vec![ModelRepoClonesWeekly { count: 7, timestamp: "w2".to_string(), uniques: 2 }],
        },
        daily_v: ModelRepoViewsDaily {
            count: 17,
            uniques: 6,
            views: vec![hour("h1", 10, 4), hour("h2", 7, 2)],
        },
        daily_c: ModelRepoClonesDaily {
            count: 4,
            uniques: 2,
            clones: vec![
                ModelRepoClonesHourly { count: 1, timestamp: "h2".to_string(), uniques: 1 },
                ModelRepoClonesHourly { count: 3, timestamp: "h0".to_string(), uniques: 1 },
            ],
        },
        referrals: vec![ModelReferrer { count: 10, referrer: "a.org".to_string(), uniques: 4 }],
        content_traffic: vec![ModelContentTraffic {
            count: 8,
            path: "/readme".to_string(),
            title: "Readme".to_string(),
            uniques: 5,
        }],
    }
}

fn second_cycle() -> ReportData {
    ReportData {
        biweekly_v: ModelRepoViewsBiWeekly {
            count: 0,
            uniques: 0,
            views: vec![ModelRepoViewsWeekly { count: 95, timestamp: "w2".to_string(), uniques: 28 }],
        },
        biweekly_c: ModelRepoClonesBiWeekly::default(),
        daily_v: ModelRepoViewsDaily { count: 0, uniques: 0, views: vec![hour("h2", 9, 2), hour("h3", 1, 1)] },
        daily_c: ModelRepoClonesDaily::default(),
        referrals: vec![
            ModelReferrer { count: 6, referrer: "a.org".to_string(), uniques: 5 },
            ModelReferrer { count: 2, referrer: "b.org".to_string(), uniques: 1 },
        ],
        content_traffic: vec![],
    }
}

fn stored(series: &KeyedSeries<ViewCloneMetric>, key: &str) -> Option<ViewCloneMetric> {
    series.get(&key.to_string()).copied()
}

#[test]
fn a_reading_touches_only_its_own_side() {
    let mut series = KeyedSeries::new();
    let added = merge_reading_side(&mut series, &"h".to_string(), 5, 2, Side::Clones);
    assert_eq!(added, metric(5, 2));
    assert_eq!(stored(&series, "h"), Some(both((0, 0), (5, 2))));
    let added = merge_reading_side(&mut series, &"h".to_string(), 9, 1, Side::Views);
    assert_eq!(added, metric(9, 1));
    assert_eq!(stored(&series, "h"), Some(both((9, 1), (5, 2))));
    let added = merge_reading_side(&mut series, &"h".to_string(), 4, 3, Side::Clones);
    assert_eq!(added, metric(0, 1));
    assert_eq!(stored(&series, "h"), Some(both((9, 1), (5, 3))));
}

#[test]
fn one_side_is_merged_with_its_total_and_without() {
    let mut series = KeyedSeries::new();
    let total = merge_side_exact(&mut series, &vec![hour("h1", 10, 4), hour("h2", 7, 2)], Side::Views, metric(1, 1));
    assert_eq!(total, metric(18, 7));
    let total = merge_side_exact(&mut series, &vec![hour("h1", 10, 4), hour("h2", 8, 2)], Side::Views, total);
    assert_eq!(total, metric(19, 7));
    merge_side_windowed(&mut series, &vec![hour("h1", 2, 2)], Side::Clones);
    assert_eq!(stored(&series, "h1"), Some(both((10, 4), (2, 2))));
    assert_eq!(stored(&series, "h2"), Some(both((8, 2), (0, 0))));
}

#[test]
fn a_new_report_holds_the_first_cycle() {
    let report = generate_new_report(first_cycle(), 1_000);
    assert_eq!(report.total, both((17, 6), (4, 2)));
    assert_eq!(report.referrals, metric(10, 4));
    assert_eq!(report.content, metric(8, 5));
    assert_eq!(report.referrers, 1);
    assert_eq!(report.traffic_paths, 1);
    assert_eq!(stored(&report.weekly, "w1"), Some(both((70, 20), (0, 0))));
    assert_eq!(stored(&report.weekly, "w2"), Some(both((90, 30), (7, 2))));
    assert_eq!(stored(&report.daily, "h1"), Some(both((10, 4), (0, 0))));
    assert_eq!(stored(&report.daily, "h2"), Some(both((7, 2), (1, 1))));
    assert_eq!(stored(&report.daily, "h0"), Some(both((0, 0), (3, 1))));
    let a = report.timelines_referrals.get(&"a.org".to_string()).expect("tracked");
    assert_eq!(a.metrics_total, metric(10, 4));
    assert_eq!(a.latest_entry_timestamp, 1_000);
    assert_eq!(a.metric_timeline.len(), 1);
}

#[test]
fn report_new_and_generate_new_report_agree() {
    let by_new = Report::new(&first_cycle(), 1_000);
    let generated = generate_new_report(first_cycle(), 1_000);
    assert_eq!(by_new.total, generated.total);
    assert_eq!(by_new.referrals, generated.referrals);
    assert_eq!(by_new.content, generated.content);
    assert_eq!(by_new.daily.len(), generated.daily.len());
    assert_eq!(by_new.weekly.len(), generated.weekly.len());
}

#[test]
fn an_update_reconciles_a_later_cycle() {
    let mut report = generate_new_report(first_cycle(), 1_000);
    assert_eq!(report.update(&second_cycle(), 2_000), Ok(()));
    assert_eq!(report.total, both((20, 7), (4, 2)));
    assert_eq!(report.referrals, metric(12, 6));
    assert_eq!(report.content, metric(8, 5));
    assert_eq!(report.referrers, 2);
    assert_eq!(report.traffic_paths, 1);
    assert_eq!(stored(&report.weekly, "w2"), Some(both((95, 30), (7, 2))));
    assert_eq!(stored(&report.daily, "h2"), Some(both((9, 2), (1, 1))));
    assert_eq!(stored(&report.daily, "h3"), Some(both((1, 1), (0, 0))));
    let a = report.timelines_referrals.get(&"a.org".to_string()).expect("tracked");
    assert_eq!(a.metric_timeline.len(), 2);
    assert_eq!(a.metric_timeline[1].change_a, -4);
    assert_eq!(a.metrics_total, metric(10, 5));
}

#[test]
fn update_clone_leaves_the_report_as_it_is() {
    let report = generate_new_report(first_cycle(), 1_000);
    let updated = report.update_clone(&second_cycle(), 2_000).expect("the totals fit");
    assert_eq!(report.total, both((17, 6), (4, 2)));
    assert_eq!(report.referrers, 1);
    assert_eq!(report.daily.len(), 3);
    assert_eq!(updated.total, both((20, 7), (4, 2)));
    assert_eq!(updated.referrers, 2);
    assert_eq!(updated.daily.len(), 4);
}

#[test]
fn update_existing_report_hands_the_updated_report_back() {
    let report = generate_new_report(first_cycle(), 1_000);
    let mut expected = report.duplicate();
    assert_eq!(expected.update(&second_cycle(), 2_000), Ok(()));
    let updated = update_existing_report(report, &second_cycle(), 2_000).expect("the totals fit");
    assert_eq!(updated.total, expected.total);
    assert_eq!(updated.referrals, expected.referrals);
    assert_eq!(updated.content, expected.content);
    assert_eq!(updated.referrers, expected.referrers);
    assert_eq!(stored(&updated.daily, "h3"), stored(&expected.daily, "h3"));
}

#[test]
fn the_default_report_is_empty() {
    let report = Report::default();
    assert_eq!(report.total, both((0, 0), (0, 0)));
    assert_eq!(report.referrals, metric(0, 0));
    assert_eq!(report.content, metric(0, 0));
    assert_eq!(report.referrers, 0);
    assert_eq!(report.traffic_paths, 0);
    assert_eq!(report.weekly.len() + report.daily.len(), 0);
    assert_eq!(report.timelines_referrals.len() + report.timelines_content_traffic.len(), 0);
}

#[test]
fn the_totals_over_all_keys_are_the_sums_of_the_timelines() {
    // Whatever the totals were, a cycle sums the timelines anew.
    let mut report = Report::default();
    report.referrals = metric(7, 7);
    report.content = metric(9, 1);
    report.referrers = 4;
    assert_eq!(report.update(&ReportData::default(), 5), Ok(()));
    assert_eq!(report.referrals, metric(0, 0));
    assert_eq!(report.content, metric(0, 0));
    assert_eq!(report.referrers, 0);

    let mut report = generate_new_report(first_cycle(), 1_000);
    report.referrals = metric(1, 1);
    assert_eq!(report.update(&second_cycle(), 2_000), Ok(()));
    // a.org 10/5 and b.org 2/1
    assert_eq!(report.referrals, metric(12, 6));
    // /readme left the snapshot: observed empty, its total stays
    assert_eq!(report.content, metric(8, 5));
    let readme = report.timelines_content_traffic.get(&"/readme".to_string()).expect("tracked");
    assert_eq!(readme.metric_timeline.len(), 2);
    assert_eq!(readme.metric_timeline[1].change_a, -8);
}

#[test]
fn a_cycle_that_would_overflow_a_total_is_refused_whole() {
    let mut report = generate_new_report(first_cycle(), 1_000);
    report.total.clones.unique = u64::MAX;
    let mut cycle = second_cycle();
    cycle.daily_c.clones = vec![ModelRepoClonesHourly { count: 1, timestamp: "h9".to_string(), uniques: 1 }];
    let before = report.duplicate();
    assert_eq!(report.update(&cycle, 2_000), Err(TotalsOverflow));
    assert_eq!(report.total, before.total);
    assert_eq!(report.daily.len(), before.daily.len());
    assert_eq!(report.weekly.len(), before.weekly.len());
    assert_eq!(stored(&report.weekly, "w2"), stored(&before.weekly, "w2"));
    assert_eq!(report.referrals, before.referrals);
    assert_eq!(
        report.timelines_referrals.get(&"a.org".to_string()).map(|t| t.metric_timeline.len()),
        Some(1)
    );
    assert!(report.update_clone(&cycle, 2_000).is_err());
    assert!(update_existing_report(before, &cycle, 2_000).is_err());

    let mut report = Report::default();
    report.timelines_referrals.insert(
        "huge".to_string(),
        Timeline { metrics_total: metric(u64::MAX, 0), latest_entry_timestamp: 0, metric_timeline: Vec::new() },
    );
    assert_eq!(report.update(&first_cycle(), 1_000), Err(TotalsOverflow));
    assert_eq!(report.daily.len(), 0);
}

#[test]
fn the_same_report_cycle_twice_changes_no_counter() {
    let mut report = generate_new_report(first_cycle(), 1_000);
    assert_eq!(report.update(&second_cycle(), 2_000), Ok(()));
    let once = report.duplicate();
    assert_eq!(report.update(&second_cycle(), 3_000), Ok(()));
    assert_eq!(report.total, once.total);
    for key in ["w1", "w2"] {
        assert_eq!(stored(&report.weekly, key), stored(&once.weekly, key));
    }
    for key in ["h0", "h1", "h2", "h3"] {
        assert_eq!(stored(&report.daily, key), stored(&once.daily, key));
    }
    assert_eq!(report.daily.len(), once.daily.len());
}

#[test]
fn the_checked_side_merge_refuses_a_total_beyond_64_bits() {
    let mut series = KeyedSeries::new();
    let snapshot = vec![hour("h1", 10, 4), hour("h2", 7, 2)];
    assert_eq!(merge_side_exact_checked(&mut series, &snapshot, Side::Views, metric(u64::MAX - 16, 0)), None);
    let mut series = KeyedSeries::new();
    assert_eq!(
        merge_side_exact_checked(&mut series, &snapshot, Side::Views, metric(u64::MAX - 17, 0)),
        Some(metric(u64::MAX, 6))
    );
}
