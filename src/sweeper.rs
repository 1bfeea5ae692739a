use vstd::prelude::*;

use crate::deleter::Executor;
use crate::pass::{Pass, PassReport, Stage};
use crate::policy::{cutoff_at, cutoff_fits, RetentionPolicy, CHILD_MAX_AGE_MS};
use crate::stats::{Stats, StatsTracker, TrackerView};

verus! {

/// The sweeper of one monitored container: its policy, where failures are
/// reported, and its statistics.
pub struct Sweeper {
    container: u64,
    policy: RetentionPolicy,
    report_container: Option<u64>,
    tracker: StatsTracker,
}

/// Whether a finished pass is worth a report: paging or deleting failed.
pub open spec fn pass_failed(r: PassReport) -> bool {
    r.page_failed || r.delete_failed
}

impl Sweeper {
    pub closed spec fn container_spec(&self) -> u64 {
        self.container
    }

    pub closed spec fn policy_spec(&self) -> RetentionPolicy {
        self.policy
    }

    pub closed spec fn report_container_spec(&self) -> Option<u64> {
        self.report_container
    }

    pub closed spec fn tracker_spec(&self) -> TrackerView {
        self.tracker.view()
    }

    pub open spec fn wf(&self) -> bool {
        self.tracker_spec().inv()
    }

    /// A sweeper of `container`, started at `started`.
    pub fn new(
        container: u64,
        policy: RetentionPolicy,
        report_container: Option<u64>,
        started: i64,
    ) -> (r: Sweeper)
        ensures
            r.wf(),
            r.container_spec() == container,
            r.policy_spec() == policy,
            r.report_container_spec() == report_container,
            r.tracker_spec() == (TrackerView {
                current: Stats { started, runs: 0, last_run: 0, all_runs: 0 },
                passes: Seq::empty(),
            }),
    {
        Sweeper { container, policy, report_container, tracker: StatsTracker::new(started) }
    }

    pub fn container(&self) -> (r: u64)
        ensures
            r == self.container_spec(),
    {
        self.container
    }

    pub fn policy(&self) -> (r: RetentionPolicy)
        ensures
            r == self.policy_spec(),
    {
        self.policy
    }

    pub fn report_container(&self) -> (r: Option<u64>)
        ensures
            r == self.report_container_spec(),
    {
        self.report_container
    }

    /// A copy of the latest statistics.
    pub fn stats(&self) -> (r: Stats)
        ensures
            r == self.tracker_spec().current,
    {
        self.tracker.snapshot()
    }

    /// A pass over the container at time `now`.
    pub fn begin_pass(&self, now: i64) -> (r: Pass)
        requires
            cutoff_fits(self.policy_spec().max_age_ms, now),
            cutoff_fits(CHILD_MAX_AGE_MS, now),
        ensures
            r.view().inv(),
            r.view().container == self.container_spec(),
            r.view().cutoff == cutoff_at(self.policy_spec().max_age_ms, now),
            r.view().child_cutoff == cutoff_at(CHILD_MAX_AGE_MS, now),
            r.view().executor == (if self.policy_spec().dry_run {
                Executor::Dry
            } else {
                Executor::Live
            }),
            r.view().stage == Stage::Listing,
            r.view().counted.len() == 0,
            r.view().removed.len() == 0,
            !r.view().child_list_failed,
            r.view().child_delete_failures == 0,
    {
        Pass::new(self.container, self.policy, now)
    }

    /// Publishes a finished pass. Returns the container to report to, where
    /// one is set and the pass failed to page or to delete.
    pub fn finish_pass(&mut self, report: PassReport) -> (r: Option<u64>)
        requires
            old(self).wf(),
            old(self).tracker_spec().current.runs < u64::MAX,
            old(self).tracker_spec().current.all_runs + report.deleted <= u64::MAX,
        ensures
            final(self).wf(),
            final(self).container_spec() == old(self).container_spec(),
            final(self).policy_spec() == old(self).policy_spec(),
            final(self).report_container_spec() == old(self).report_container_spec(),
            final(self).tracker_spec() == (TrackerView {
                current: Stats {
                    runs: (old(self).tracker_spec().current.runs + 1) as u64,
                    last_run: report.deleted,
                    all_runs: (old(self).tracker_spec().current.all_runs + report.deleted) as u64,
                    ..old(self).tracker_spec().current
                },
                passes: old(self).tracker_spec().passes.push(report.deleted),
            }),
            r == (if pass_failed(report) {
                old(self).report_container_spec()
            } else {
                None
            }),
    {
        self.tracker.publish_pass(report.deleted);
        if report.page_failed || report.delete_failed {
            self.report_container
        } else {
            None
        }
    }
}

} // verus!
