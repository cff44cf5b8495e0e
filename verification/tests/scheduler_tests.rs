use traffic_chronicle::scheduler::{
    MidnightScheduler, Rollover, Sample, SchedulerAction, SchedulerConfig, SchedulerState,
};
use traffic_chronicle::timecalc::{next_utc_day, utc_day, SECONDS_PER_DAY};

const DAY: u64 = 19_800;

fn at(day: u64, hour: u64, minute: u64, second: u64) -> u64 {
    day * SECONDS_PER_DAY + hour * 3_600 + minute * 60 + second
}

fn config() -> SchedulerConfig {
    SchedulerConfig { margin_seconds: 120, retry_seconds: 5, max_samples: 4 }
}

#[test]
fn crossing_midnight_yields_exactly_one_rollover() {
    let mut scheduler = MidnightScheduler::new(config());
    assert_eq!(scheduler.state, SchedulerState::Idle);

    // 23:58:00: the margin begins, the scheduler arms and asks for a poll.
    let first = at(DAY, 23, 58, 0);
    assert_eq!(scheduler.tick(first), SchedulerAction::Poll { retry_seconds: 5 });
    assert_eq!(scheduler.state, SchedulerState::Armed);
    assert_eq!(scheduler.armed_day, DAY);
    assert_eq!(scheduler.record(first, first, 50, 20), None);
    assert_eq!(scheduler.state, SchedulerState::Armed);

    // 00:00:30: the first timestamp of the next day.
    let second = at(DAY + 1, 0, 0, 30);
    assert_eq!(scheduler.tick(second), SchedulerAction::Poll { retry_seconds: 5 });
    assert_eq!(scheduler.record(second, second, 45, 18), None);
    assert_eq!(scheduler.state, SchedulerState::Sampling);

    // 00:01:10: the same totals again.
    let third = at(DAY + 1, 0, 1, 10);
    assert_eq!(scheduler.tick(third), SchedulerAction::Poll { retry_seconds: 5 });
    let rollover = scheduler.record(third, third, 45, 18);
    assert_eq!(
        rollover,
        Some(Rollover {
            day: DAY,
            before: Sample { taken_at: first, total: 50, total_unique: 20 },
            after: Sample { taken_at: second, total: 45, total_unique: 18 },
            expired: 5,
            expired_unique: 2,
            low_confidence: false,
        })
    );
    assert_eq!(scheduler.state, SchedulerState::Idle);

    // At rest again: further results yield nothing.
    let fourth = at(DAY + 1, 0, 1, 15);
    assert_eq!(scheduler.record(fourth, fourth, 45, 18), None);
    assert_eq!(scheduler.state, SchedulerState::Idle);
    assert_eq!(scheduler, MidnightScheduler { armed_day: DAY, ..MidnightScheduler::new(config()) });
}

#[test]
fn outside_the_margin_the_scheduler_sleeps_until_it_begins() {
    let mut scheduler = MidnightScheduler::new(config());
    assert_eq!(scheduler.tick(at(DAY, 12, 0, 0)), SchedulerAction::Sleep { seconds: 12 * 3_600 - 120 });
    assert_eq!(scheduler.state, SchedulerState::Idle);
    assert_eq!(scheduler.tick(at(DAY, 23, 57, 59)), SchedulerAction::Sleep { seconds: 1 });
    assert_eq!(scheduler.state, SchedulerState::Idle);
    assert_eq!(scheduler.tick(at(DAY, 0, 0, 0)), SchedulerAction::Sleep { seconds: SECONDS_PER_DAY - 120 });
    assert_eq!(scheduler.state, SchedulerState::Idle);
    assert_eq!(scheduler.record(at(DAY, 12, 0, 0), at(DAY, 12, 0, 1), 50, 20), None);
    assert_eq!(scheduler.state, SchedulerState::Idle);
}

#[test]
fn the_last_sample_before_midnight_is_the_one_compared() {
    let mut scheduler = MidnightScheduler::new(config());
    scheduler.tick(at(DAY, 23, 58, 30));
    scheduler.record(at(DAY, 23, 58, 30), at(DAY, 23, 58, 31), 50, 20);
    scheduler.record(at(DAY, 23, 59, 30), at(DAY, 23, 59, 31), 52, 20);
    scheduler.record(at(DAY, 23, 59, 58), at(DAY, 23, 59, 59), 53, 21);
    assert_eq!(scheduler.state, SchedulerState::Armed);
    scheduler.record(at(DAY + 1, 0, 0, 2), at(DAY + 1, 0, 0, 3), 40, 15);
    scheduler.record(at(DAY + 1, 0, 0, 7), at(DAY + 1, 0, 0, 8), 41, 15);
    let rollover = scheduler.record(at(DAY + 1, 0, 0, 12), at(DAY + 1, 0, 0, 13), 41, 15).expect("stable");
    assert_eq!(rollover.before, Sample { taken_at: at(DAY, 23, 59, 59), total: 53, total_unique: 21 });
    assert_eq!(rollover.after, Sample { taken_at: at(DAY + 1, 0, 0, 8), total: 41, total_unique: 15 });
    assert_eq!(rollover.expired, 12);
    assert_eq!(rollover.expired_unique, 6);
    assert!(!rollover.low_confidence);
}

#[test]
fn a_request_in_flight_across_midnight_lowers_the_confidence() {
    let mut scheduler = MidnightScheduler::new(config());
    scheduler.tick(at(DAY, 23, 59, 0));
    scheduler.record(at(DAY, 23, 59, 0), at(DAY, 23, 59, 1), 50, 20);
    scheduler.record(at(DAY, 23, 59, 59), at(DAY + 1, 0, 0, 1), 45, 18);
    assert_eq!(scheduler.state, SchedulerState::Sampling);
    assert!(scheduler.straddled);
    let rollover = scheduler.record(at(DAY + 1, 0, 0, 5), at(DAY + 1, 0, 0, 6), 45, 18).expect("stable");
    assert!(rollover.low_confidence);
    assert_eq!(rollover.expired, 5);
}

#[test]
fn totals_that_did_not_move_lower_the_confidence() {
    let mut scheduler = MidnightScheduler::new(config());
    scheduler.tick(at(DAY, 23, 59, 0));
    scheduler.record(at(DAY, 23, 59, 0), at(DAY, 23, 59, 1), 50, 20);
    scheduler.record(at(DAY + 1, 0, 0, 1), at(DAY + 1, 0, 0, 2), 50, 20);
    let rollover = scheduler.record(at(DAY + 1, 0, 0, 5), at(DAY + 1, 0, 0, 6), 50, 20).expect("stable");
    assert_eq!(rollover.expired, 0);
    assert!(rollover.low_confidence);
}

#[test]
fn sampling_stops_at_the_ceiling_with_low_confidence() {
    let mut scheduler = MidnightScheduler::new(config());
    scheduler.tick(at(DAY, 23, 59, 0));
    scheduler.record(at(DAY, 23, 59, 0), at(DAY, 23, 59, 1), 50, 20);
    assert_eq!(scheduler.record(at(DAY + 1, 0, 0, 1), at(DAY + 1, 0, 0, 2), 45, 18), None);
    assert_eq!(scheduler.record(at(DAY + 1, 0, 0, 6), at(DAY + 1, 0, 0, 7), 46, 18), None);
    assert_eq!(scheduler.record(at(DAY + 1, 0, 0, 11), at(DAY + 1, 0, 0, 12), 47, 18), None);
    assert_eq!(scheduler.samples_after, 3);
    let rollover = scheduler.record(at(DAY + 1, 0, 0, 16), at(DAY + 1, 0, 0, 17), 48, 19).expect("ceiling");
    assert_eq!(
        rollover,
        Rollover {
            day: DAY,
            before: Sample { taken_at: at(DAY, 23, 59, 1), total: 50, total_unique: 20 },
            after: Sample { taken_at: at(DAY + 1, 0, 0, 17), total: 48, total_unique: 19 },
            expired: 2,
            expired_unique: 1,
            low_confidence: true,
        }
    );
    assert_eq!(scheduler.state, SchedulerState::Idle);
}

#[test]
fn a_window_that_grew_gives_a_negative_rollover() {
    let mut scheduler = MidnightScheduler::new(config());
    scheduler.tick(at(DAY, 23, 59, 0));
    scheduler.record(at(DAY, 23, 59, 0), at(DAY, 23, 59, 1), 0, 0);
    scheduler.record(at(DAY + 1, 0, 0, 1), at(DAY + 1, 0, 0, 2), u64::MAX, 3);
    let rollover = scheduler.record(at(DAY + 1, 0, 0, 5), at(DAY + 1, 0, 0, 6), u64::MAX, 3).expect("stable");
    assert_eq!(rollover.expired, -(u64::MAX as i128));
    assert_eq!(rollover.expired_unique, -3);
}

#[test]
fn without_a_sample_from_before_midnight_the_scheduler_returns_to_rest() {
    let mut scheduler = MidnightScheduler::new(config());
    scheduler.tick(at(DAY, 23, 59, 0));
    assert_eq!(scheduler.state, SchedulerState::Armed);
    assert_eq!(scheduler.record(at(DAY + 1, 0, 0, 1), at(DAY + 1, 0, 0, 2), 45, 18), None);
    assert_eq!(scheduler.state, SchedulerState::Idle);
}

#[test]
fn rest_forgets_every_sample() {
    let mut scheduler = MidnightScheduler::new(config());
    scheduler.tick(at(DAY, 23, 59, 0));
    scheduler.record(at(DAY, 23, 59, 0), at(DAY, 23, 59, 1), 50, 20);
    scheduler.rest();
    assert_eq!(scheduler, MidnightScheduler { armed_day: DAY, ..MidnightScheduler::new(config()) });
}

#[test]
fn days_and_midnights_are_counted_in_utc_seconds() {
    assert_eq!(utc_day(0), 0);
    assert_eq!(utc_day(86_399), 0);
    assert_eq!(utc_day(86_400), 1);
    assert_eq!(utc_day(at(DAY, 23, 59, 59)), DAY);
    assert_eq!(next_utc_day(0), 86_400);
    assert_eq!(next_utc_day(86_399), 1);
    assert_eq!(next_utc_day(at(DAY, 23, 58, 0)), 120);
    assert_eq!(next_utc_day(u64::MAX), 86_400 - u64::MAX % 86_400);
}
