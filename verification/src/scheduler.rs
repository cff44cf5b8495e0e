//! The midnight-straddle sampling scheduler.
//!
//! The referrer and content endpoints report a sum over the trailing
//! fourteen days.  When the UTC day changes, the oldest day leaves that
//! window and the sum drops by what that day had contributed.  To isolate
//! the drop from ordinary new traffic, the scheduler samples tightly around
//! midnight: it arms shortly before midnight, keeps the last sample read
//! before the day changed, and after the change samples on until two
//! consecutive reads agree.  The difference between the last sample before
//! midnight and the first stable sample after it is the rollover.
//!
//! The scheduler decides; it neither reads a clock nor polls.  Its caller
//! hands it the time ([`MidnightScheduler::tick`]) and each poll's result
//! ([`MidnightScheduler::record`]), and does what the returned action says.

use vstd::prelude::*;
use crate::timecalc::{day_of, next_utc_day, until_midnight, utc_day};

verus! {

/// Where the scheduler stands.
#[derive(Debug, Clone, Copy, PartialEq, Eq, Structural)]
pub enum SchedulerState {
    /// Outside the margin before midnight: only the routine cadence runs.
    Idle,
    /// Inside the margin: sampling, and waiting for the day to change.
    Armed,
    /// The day has changed: sampling until two consecutive reads agree.
    Sampling,
}

/// The timing that the scheduler is run with.
#[derive(Debug, Clone, Copy, PartialEq, Eq)]
pub struct SchedulerConfig {
    /// How long before midnight the scheduler arms, in seconds.
    pub margin_seconds: u64,
    /// How long to wait between two samples, in seconds.
    pub retry_seconds: u64,
    /// After how many samples past midnight the scheduler stops waiting for
    /// two reads to agree.
    pub max_samples: u64,
}

/// One read of a window total.
#[derive(Debug, Clone, Copy, PartialEq, Eq)]
pub struct Sample {
    /// When the answer was received.
    pub taken_at: u64,
    pub total: u64,
    pub total_unique: u64,
}

/// What the caller is to do next.
#[derive(Debug, Clone, Copy, PartialEq, Eq)]
pub enum SchedulerAction {
    /// Nothing but the routine cadence, until the margin begins in
    /// `seconds`.
    Sleep { seconds: u64 },
    /// Poll the dayless endpoints now, hand the result to
    /// [`MidnightScheduler::record`], and come back after `retry_seconds`.
    Poll { retry_seconds: u64 },
}

/// The drop of a window total across one UTC midnight.
#[derive(Debug, Clone, Copy, PartialEq, Eq)]
pub struct Rollover {
    /// The UTC day on which the scheduler armed: the day that ended.
    pub day: u64,
    /// The last sample read before midnight.
    pub before: Sample,
    /// The first stable sample read after midnight.
    pub after: Sample,
    /// `before.total - after.total`: what left the window, if nothing
    /// arrived meanwhile.
    pub expired: i128,
    /// `before.total_unique - after.total_unique`.
    pub expired_unique: i128,
    /// Set where the drop cannot be told from new traffic with confidence:
    /// where a read was in flight while the day changed, where the totals
    /// did not move at all, and where the reads never agreed.
    pub low_confidence: bool,
}

/// The scheduler's state machine.
#[derive(Debug, Clone, Copy, PartialEq, Eq)]
pub struct MidnightScheduler {
    pub config: SchedulerConfig,
    pub state: SchedulerState,
    /// The UTC day on which the scheduler armed.
    pub armed_day: u64,
    /// The last sample read before midnight, once there is one.
    pub before: Option<Sample>,
    /// The latest sample read after midnight, once there is one.
    pub latest: Option<Sample>,
    /// How many samples were read after midnight.
    pub samples_after: u64,
    /// A read was sent before midnight and answered after it.
    pub straddled: bool,
}

/// The rollover between two samples.
pub open spec fn rollover_between(
    day: u64,
    before: Sample,
    after: Sample,
    low_confidence: bool,
) -> Rollover {
    Rollover {
        day,
        before,
        after,
        expired: (before.total - after.total) as i128,
        expired_unique: (before.total_unique - after.total_unique) as i128,
        low_confidence,
    }
}

/// Two samples hold the same totals.
pub open spec fn same_totals(a: Sample, b: Sample) -> bool {
    a.total == b.total && a.total_unique == b.total_unique
}

impl MidnightScheduler {
    /// The moment lies within the margin before midnight.
    pub open spec fn in_margin(self, now: u64) -> bool {
        until_midnight(now) <= self.config.margin_seconds
    }

    /// The scheduler at rest, forgetting every sample.
    pub open spec fn at_rest(self) -> MidnightScheduler {
        MidnightScheduler {
            state: SchedulerState::Idle,
            before: None,
            latest: None,
            samples_after: 0,
            straddled: false,
            ..self
        }
    }

    /// The scheduler after the clock shows `now`.
    pub open spec fn after_tick(self, now: u64) -> MidnightScheduler {
        if self.state == SchedulerState::Idle && self.in_margin(now) {
            MidnightScheduler {
                state: SchedulerState::Armed,
                armed_day: day_of(now),
                ..self.at_rest()
            }
        } else {
            self
        }
    }

    /// What the caller is to do when the clock shows `now`.
    pub open spec fn action_at(self, now: u64) -> SchedulerAction {
        if self.state == SchedulerState::Idle && !self.in_margin(now) {
            SchedulerAction::Sleep {
                seconds: (until_midnight(now) - self.config.margin_seconds) as u64,
            }
        } else {
            SchedulerAction::Poll { retry_seconds: self.config.retry_seconds }
        }
    }

    /// The rollover that a poll's result completes, if it completes one.
    pub open spec fn rollover_on(
        self,
        sent_at: u64,
        received_at: u64,
        total: u64,
        total_unique: u64,
    ) -> Option<Rollover> {
        let sample = Sample { taken_at: received_at, total, total_unique };
        if self.state == SchedulerState::Sampling && self.before is Some && self.latest is Some {
            let before = self.before->Some_0;
            let latest = self.latest->Some_0;
            if same_totals(sample, latest) {
                Some(
                    rollover_between(
                        self.armed_day,
                        before,
                        latest,
                        self.straddled || same_totals(before, latest),
                    ),
                )
            } else if self.samples_after + 1 >= self.config.max_samples {
                Some(rollover_between(self.armed_day, before, sample, true))
            } else {
                None
            }
        } else {
            None
        }
    }

    /// The scheduler after a poll's result.
    pub open spec fn after_record(
        self,
        sent_at: u64,
        received_at: u64,
        total: u64,
        total_unique: u64,
    ) -> MidnightScheduler {
        let sample = Sample { taken_at: received_at, total, total_unique };
        match self.state {
            SchedulerState::Idle => self,
            SchedulerState::Armed => {
                if day_of(received_at) <= self.armed_day {
                    MidnightScheduler { before: Some(sample), ..self }
                } else if self.before is None {
                    self.at_rest()
                } else {
                    MidnightScheduler {
                        state: SchedulerState::Sampling,
                        latest: Some(sample),
                        samples_after: 1,
                        straddled: day_of(sent_at) <= self.armed_day,
                        ..self
                    }
                }
            },
            SchedulerState::Sampling => {
                if self.rollover_on(sent_at, received_at, total, total_unique) is Some || self.before
                    is None || self.latest is None {
                    self.at_rest()
                } else {
                    MidnightScheduler {
                        latest: Some(sample),
                        samples_after: (self.samples_after + 1) as u64,
                        ..self
                    }
                }
            },
        }
    }

    /// A scheduler at rest.
    pub fn new(config: SchedulerConfig) -> (scheduler: MidnightScheduler)
        ensures
            scheduler.config == config,
            scheduler.state == SchedulerState::Idle,
            scheduler == scheduler.at_rest(),
            scheduler.armed_day == 0,
    {
        MidnightScheduler {
            config,
            state: SchedulerState::Idle,
            armed_day: 0,
            before: None,
            latest: None,
            samples_after: 0,
            straddled: false,
        }
    }

    /// Takes note of the time.  At rest, the scheduler arms as soon as `now`
    /// lies within the margin before midnight, and otherwise says how long
    /// the caller may sleep until the margin begins.  Armed or sampling, it
    /// asks for the next poll.
    pub fn tick(&mut self, now: u64) -> (action: SchedulerAction)
        ensures
            *final(self) == old(self).after_tick(now),
            action == old(self).action_at(now),
    {
        let remaining = next_utc_day(now);
        match self.state {
            SchedulerState::Idle => {
                if remaining <= self.config.margin_seconds {
                    self.state = SchedulerState::Armed;
                    self.armed_day = utc_day(now);
                    self.before = None;
                    self.latest = None;
                    self.samples_after = 0;
                    self.straddled = false;
                    SchedulerAction::Poll { retry_seconds: self.config.retry_seconds }
                } else {
                    SchedulerAction::Sleep { seconds: remaining - self.config.margin_seconds }
                }
            },
            _ => SchedulerAction::Poll { retry_seconds: self.config.retry_seconds },
        }
    }

    /// Takes note of a poll's result: the totals read by a request that was
    /// sent at `sent_at` and answered at `received_at`.
    ///
    /// Armed, the scheduler keeps the sample as the last one before midnight
    /// while the day has not changed; the first sample of the next day takes
    /// it to sampling, or back to rest if there is no sample from before
    /// midnight to compare with.  Sampling, it returns to rest and hands out
    /// the rollover as soon as a sample repeats the totals of the one before
    /// it, or the ceiling of samples is reached; then the rollover is marked
    /// as of low confidence.  At rest, it ignores the result.
    pub fn record(
        &mut self,
        sent_at: u64,
        received_at: u64,
        total: u64,
        total_unique: u64,
    ) -> (rollover: Option<Rollover>)
        ensures
            *final(self) == old(self).after_record(sent_at, received_at, total, total_unique),
            rollover == old(self).rollover_on(sent_at, received_at, total, total_unique),
    {
        let sample = Sample { taken_at: received_at, total, total_unique };
        match self.state {
            SchedulerState::Idle => None,
            SchedulerState::Armed => {
                if utc_day(received_at) <= self.armed_day {
                    self.before = Some(sample);
                } else if self.before.is_none() {
                    self.rest();
                } else {
                    self.state = SchedulerState::Sampling;
                    self.latest = Some(sample);
                    self.samples_after = 1;
                    self.straddled = utc_day(sent_at) <= self.armed_day;
                }
                None
            },
            SchedulerState::Sampling => {
                match (self.before, self.latest) {
                    (Some(before), Some(latest)) => {
                        if total == latest.total && total_unique == latest.total_unique {
                            let unmoved = before.total == latest.total && before.total_unique
                                == latest.total_unique;
                            let rollover = Rollover {
                                day: self.armed_day,
                                before,
                                after: latest,
                                expired: before.total as i128 - latest.total as i128,
                                expired_unique: before.total_unique as i128 - latest.total_unique as i128,
                                low_confidence: self.straddled || unmoved,
                            };
                            self.rest();
                            Some(rollover)
                        } else if self.samples_after >= self.config.max_samples || self.samples_after
                            + 1 >= self.config.max_samples {
                            let rollover = Rollover {
                                day: self.armed_day,
                                before,
                                after: sample,
                                expired: before.total as i128 - total as i128,
                                expired_unique: before.total_unique as i128 - total_unique as i128,
                                low_confidence: true,
                            };
                            self.rest();
                            Some(rollover)
                        } else {
                            self.latest = Some(sample);
                            self.samples_after = self.samples_after + 1;
                            None
                        }
                    },
                    _ => {
                        self.rest();
                        None
                    },
                }
            },
        }
    }

    /// Returns the scheduler to rest and forgets every sample.
    pub fn rest(&mut self)
        ensures
            *final(self) == old(self).at_rest(),
    {
        self.state = SchedulerState::Idle;
        self.before = None;
        self.latest = None;
        self.samples_after = 0;
        self.straddled = false;
    }
}

/// **One rollover per midnight.**  A rollover is handed out only by a
/// scheduler that is sampling, and handing one out returns it to rest;
/// at rest and armed, no poll's result yields a rollover.
pub proof fn law_rollover_ends_sampling(
    scheduler: MidnightScheduler,
    sent_at: u64,
    received_at: u64,
    total: u64,
    total_unique: u64,
)
    ensures
        scheduler.rollover_on(sent_at, received_at, total, total_unique) is Some ==> scheduler.state
            == SchedulerState::Sampling && scheduler.after_record(
            sent_at,
            received_at,
            total,
            total_unique,
        ).state == SchedulerState::Idle,
{
}

/// **Sampling is bounded.**  Every poll's result either ends sampling or
/// raises the count of samples, which never passes the ceiling: a scheduler
/// that keeps sampling has read fewer samples than the ceiling allows.
pub proof fn law_sampling_is_bounded(
    scheduler: MidnightScheduler,
    sent_at: u64,
    received_at: u64,
    total: u64,
    total_unique: u64,
)
    requires
        scheduler.state == SchedulerState::Sampling,
    ensures
        ({
            let next = scheduler.after_record(sent_at, received_at, total, total_unique);
            next.state == SchedulerState::Idle || (next.state == SchedulerState::Sampling
                && next.samples_after == scheduler.samples_after + 1 && next.samples_after
                < scheduler.config.max_samples)
        }),
{
}

/// **The scheduler arms only within the margin, and only from rest.**
pub proof fn law_arming(scheduler: MidnightScheduler, now: u64)
    ensures
        scheduler.after_tick(now).state != scheduler.state ==> scheduler.state == SchedulerState::Idle
            && scheduler.after_tick(now).state == SchedulerState::Armed && until_midnight(now)
            <= scheduler.config.margin_seconds && scheduler.after_tick(now).armed_day == day_of(now),
{
}

} // verus!
