use vstd::prelude::*;

verus! {

/// Run statistics of one sweeper. Times are milliseconds since the Unix epoch.
#[derive(Clone, Copy, Debug, PartialEq, Eq, Structural)]
pub struct Stats {
    pub started: i64,
    /// Passes completed.
    pub runs: u64,
    /// Messages deleted by the most recent pass.
    pub last_run: u64,
    /// Messages deleted by all passes.
    pub all_runs: u64,
}

/// The sum of a sequence of counts.
pub open spec fn total(s: Seq<u64>) -> int
    decreases s.len(),
{
    if s.len() == 0 {
        0
    } else {
        total(s.drop_last()) + s.last()
    }
}

/// What a tracker holds: the latest statistics, and the deleted count of
/// every pass published so far.
pub ghost struct TrackerView {
    pub current: Stats,
    pub passes: Seq<u64>,
}

impl TrackerView {
    pub open spec fn inv(self) -> bool {
        &&& self.current.runs == self.passes.len()
        &&& self.current.all_runs == total(self.passes)
        &&& self.current.last_run == (if self.passes.len() == 0 {
            0
        } else {
            self.passes.last()
        })
    }
}

/// Holds the statistics of one sweeper; each finished pass is published
/// once, and readers take copies.
pub struct StatsTracker {
    current: Stats,
    passes: Ghost<Seq<u64>>,
}

impl StatsTracker {
    pub closed spec fn view(&self) -> TrackerView {
        TrackerView { current: self.current, passes: self.passes@ }
    }

    /// A tracker started at `started`, with no pass yet.
    pub fn new(started: i64) -> (r: StatsTracker)
        ensures
            r.view() == (TrackerView {
                current: Stats { started, runs: 0, last_run: 0, all_runs: 0 },
                passes: Seq::empty(),
            }),
            r.view().inv(),
    {
        StatsTracker {
            current: Stats { started, runs: 0, last_run: 0, all_runs: 0 },
            passes: Ghost(Seq::empty()),
        }
    }

    /// Publishes a finished pass that deleted `deleted` messages.
    pub fn publish_pass(&mut self, deleted: u64)
        requires
            old(self).view().inv(),
            old(self).view().current.runs < u64::MAX,
            old(self).view().current.all_runs + deleted <= u64::MAX,
        ensures
            final(self).view() == (TrackerView {
                current: Stats {
                    runs: (old(self).view().current.runs + 1) as u64,
                    last_run: deleted,
                    all_runs: (old(self).view().current.all_runs + deleted) as u64,
                    ..old(self).view().current
                },
                passes: old(self).view().passes.push(deleted),
            }),
            final(self).view().inv(),
    {
        let ghost before = self.passes@;
        self.current = Stats {
            runs: self.current.runs + 1,
            last_run: deleted,
            all_runs: self.current.all_runs + deleted,
            ..self.current
        };
        self.passes = Ghost(self.passes@.push(deleted));
        proof {
            assert(self.passes@.drop_last() =~= before);
        }
    }

    /// A copy of the latest statistics.
    pub fn snapshot(&self) -> (r: Stats)
        ensures
            r == self.view().current,
    {
        self.current
    }
}

/// After any number of published passes, `runs` is that number, `last_run`
/// the count of the latest, and `all_runs` the sum of the counts of them all.
pub proof fn lemma_stats_totals(t: TrackerView)
    requires
        t.inv(),
    ensures
        t.current.runs == t.passes.len(),
        t.current.all_runs == total(t.passes),
        t.passes.len() > 0 ==> t.current.last_run == t.passes[t.passes.len() - 1],
{
}

} // verus!
