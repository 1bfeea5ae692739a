use vstd::prelude::*;

use crate::deleter::Executor;

verus! {

/// How long a child container's messages are kept: one day, in milliseconds.
pub const CHILD_MAX_AGE_MS: i64 = 86_400_000;

/// How long messages are kept, and whether deletions are only counted.
#[derive(Clone, Copy, Debug, PartialEq, Eq, Structural)]
pub struct RetentionPolicy {
    pub max_age_ms: i64,
    pub dry_run: bool,
}

/// The cutoff of a policy at time `now`: messages created before it are expired.
pub open spec fn cutoff_at(max_age_ms: i64, now: i64) -> int {
    now - max_age_ms
}

/// Whether the cutoff at `now` can be written as a timestamp.
pub open spec fn cutoff_fits(max_age_ms: i64, now: i64) -> bool {
    i64::MIN <= cutoff_at(max_age_ms, now) <= i64::MAX
}

impl RetentionPolicy {
    pub fn new(max_age_ms: i64, dry_run: bool) -> (r: RetentionPolicy)
        ensures
            r == (RetentionPolicy { max_age_ms, dry_run }),
    {
        RetentionPolicy { max_age_ms, dry_run }
    }

    /// The policy of a child container: kept one day, deleted for real.
    pub fn for_child() -> (r: RetentionPolicy)
        ensures
            r == (RetentionPolicy { max_age_ms: CHILD_MAX_AGE_MS, dry_run: false }),
    {
        RetentionPolicy { max_age_ms: CHILD_MAX_AGE_MS, dry_run: false }
    }

    /// `now` less the maximum age.
    pub fn cutoff(&self, now: i64) -> (r: i64)
        requires
            cutoff_fits(self.max_age_ms, now),
        ensures
            r == cutoff_at(self.max_age_ms, now),
    {
        now - self.max_age_ms
    }

    /// The executor this policy selects: counting only in a dry run.
    pub fn executor(&self) -> (r: Executor)
        ensures
            r == (if self.dry_run {
                Executor::Dry
            } else {
                Executor::Live
            }),
    {
        if self.dry_run {
            Executor::Dry
        } else {
            Executor::Live
        }
    }
}

} // verus!
