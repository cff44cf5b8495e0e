//! Building a report from a first polling cycle, and carrying a report
//! through a later one.

use vstd::prelude::*;
use crate::report_models::{Report, ReportData, ReportView, TimestampUnix, TotalsOverflow};

verus! {

/// Carries a report through one more polling cycle, whose snapshots were
/// read at `timestamp`, and hands it back.  Where a total would pass 64
/// bits, the cycle is refused.
pub fn update_existing_report(
    report: Report,
    new_data: &ReportData,
    timestamp: TimestampUnix,
) -> (updated: Result<Report, TotalsOverflow>)
    ensures
        report@.fits(*new_data, timestamp) ==> updated is Ok && updated->Ok_0@ == report@.updated(
            *new_data,
            timestamp,
        ),
        !report@.fits(*new_data, timestamp) ==> updated is Err,
{
    let mut report = report;
    match report.update(new_data, timestamp) {
        Ok(()) => Ok(report),
        Err(error) => Err(error),
    }
}

/// The report of a first polling cycle, whose snapshots were read at
/// `timestamp`; the empty report where a total would pass 64 bits.
pub fn generate_new_report(report_data: ReportData, timestamp: TimestampUnix) -> (report: Report)
    ensures
        report@ == ReportView::empty().after_update(report_data, timestamp),
{
    Report::new(&report_data, timestamp)
}

} // verus!
