//! A durable, ever-growing record of a repository's traffic, kept by
//! reconciling repeated and overlapping snapshots of a traffic API.
//!
//! The API reports in three shapes: counters under exact timestamps, per
//! hour and per week; a weekly window whose last entry is still growing; and
//! live sums over the trailing fourteen days that carry no timestamp at all.
//! Polling naively counts traffic twice, or loses it, as old days leave the
//! window while new traffic arrives.  This library folds every snapshot into
//! the record so that nothing is counted twice and no total ever falls, and
//! proves that it does.
//!
//! * [`api_models`] holds the snapshots as the API answers them.
//! * [`series`] is the store of values under unique text keys in which every
//!   series is kept.
//! * [`reconcile`] merges timestamped counters; [`paired`] does the same for
//!   series that keep views and clones side by side; [`dayless`] estimates
//!   what happened between two reads of a sum without timestamp.
//! * [`report`] is the chronicle and the reconciling half of a polling
//!   cycle; [`report_models`] holds the timelines and, with [`reporter`], the
//!   report that keeps views and clones side by side.
//! * [`scheduler`] decides when to sample closely around UTC midnight.
//! * [`api`] names the endpoints and says when a failed fetch is tried
//!   again; [`timecalc`] does the arithmetic on timestamps.
//! * [`crypto`] pads, derives keys and seals byte strings.
//!
//! The reconciler reads no clock, opens no file and sends no request: its
//! callers hand it the time and what they fetched, and persist what it
//! returns.

pub mod api;
pub mod api_models;
pub mod crypto;
pub mod dayless;
pub mod paired;
pub mod reconcile;
pub mod report;
pub mod report_models;
pub mod reporter;
pub mod scheduler;
pub mod series;
pub mod timecalc;
