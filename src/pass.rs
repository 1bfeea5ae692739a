use vstd::prelude::*;

use crate::children::{children_of, select_children, ChildContainer};
use crate::deleter::{CallView, DeleteCall, Executor};
use crate::message::{unpinned_ids, Message};
use crate::pager::PageRequest;
use crate::policy::{cutoff_at, cutoff_fits, RetentionPolicy, CHILD_MAX_AGE_MS};
use crate::sweep::{
    delete_step, fresh_sweep, lemma_fresh_sweep, page_failed_step, page_step, Sweep, SweepAction, SweepActionView,
    SweepView,
};

verus! {

/// Where a pass stands.
#[derive(Clone, Copy, Debug, PartialEq, Eq, Structural)]
pub enum Stage {
    /// Waiting for the list of child containers.
    Listing,
    /// Sweeping the current child container.
    ChildSweep,
    /// Waiting for the number of messages left in the current child.
    ChildCount,
    /// Waiting for the deletion of the current child, now empty.
    ChildRemove,
    /// Sweeping the monitored container itself.
    OwnSweep,
    /// Done.
    Finished,
}

/// The call a pass asks its caller to make next.
#[derive(Debug, PartialEq, Eq)]
pub enum Action {
    /// List the active child containers: `on_children` or `on_children_failed`.
    ListChildren { container: u64 },
    /// Fetch a page of messages: `on_page` or `on_page_failed`.
    FetchPage(PageRequest),
    /// Delete messages of `container`: `on_delete_result`.
    Delete { container: u64, call: DeleteCall },
    /// Count the messages left in a child container: `on_count`.
    CountMessages { container: u64 },
    /// Delete a child container: `on_container_deleted`.
    DeleteContainer { container: u64 },
    /// Nothing more: the pass is over.
    Finished,
}

pub ghost enum ActionView {
    ListChildren { container: u64 },
    FetchPage(PageRequest),
    Delete { container: u64, call: CallView },
    CountMessages { container: u64 },
    DeleteContainer { container: u64 },
    Finished,
}

impl View for Action {
    type V = ActionView;

    open spec fn view(&self) -> ActionView {
        match self {
            Action::ListChildren { container } => ActionView::ListChildren { container: *container },
            Action::FetchPage(r) => ActionView::FetchPage(*r),
            Action::Delete { container, call } => ActionView::Delete {
                container: *container,
                call: call@,
            },
            Action::CountMessages { container } => ActionView::CountMessages {
                container: *container,
            },
            Action::DeleteContainer { container } => ActionView::DeleteContainer {
                container: *container,
            },
            Action::Finished => ActionView::Finished,
        }
    }
}

/// How a pass ended.
#[derive(Clone, Copy, Debug, PartialEq, Eq, Structural)]
pub struct PassReport {
    /// Messages deleted from the monitored container.
    pub deleted: u64,
    /// Paging ended on a failed fetch or a malformed page.
    pub page_failed: bool,
    /// A deletion call failed and the remaining ones were not made.
    pub delete_failed: bool,
    /// The child containers could not be listed, so none was swept.
    pub child_list_failed: bool,
    /// How many empty child containers could not be deleted.
    pub child_delete_failures: usize,
}

/// The children, in worklist order, whose count after their sweep came back zero.
pub open spec fn emptied(children: Seq<u64>, counted: Seq<Option<u64>>) -> Seq<u64>
    decreases counted.len(),
{
    if counted.len() == 0 {
        Seq::empty()
    } else {
        let prev = emptied(children, counted.drop_last());
        if counted.last() == Some(0u64) {
            prev.push(children[counted.len() - 1])
        } else {
            prev
        }
    }
}

/// What a pass has done so far.
pub ghost struct PassView {
    pub container: u64,
    /// The cutoff for the monitored container's own messages.
    pub cutoff: i64,
    /// The cutoff for the messages of child containers.
    pub child_cutoff: i64,
    pub executor: Executor,
    pub stage: Stage,
    /// The worklist of child containers.
    pub children: Seq<u64>,
    /// The child being worked on; the length of the worklist once all are done.
    pub child_index: nat,
    /// The sweep under way: of the current child, or of the container itself.
    pub sweep: SweepView,
    pub child_list_failed: bool,
    pub child_delete_failures: nat,
    /// What each child swept so far reported left after its sweep, in
    /// worklist order; `None` where the count failed.
    pub counted: Seq<Option<u64>>,
    /// The child containers whose deletion was asked for, in order.
    pub removed: Seq<u64>,
}

impl PassView {
    pub open spec fn in_child_stage(self) -> bool {
        self.stage == Stage::ChildSweep || self.stage == Stage::ChildCount || self.stage
            == Stage::ChildRemove
    }

    /// How many children have reported their count.
    pub open spec fn counted_len(self) -> int {
        match self.stage {
            Stage::Listing => 0,
            Stage::ChildSweep => self.child_index as int,
            Stage::ChildCount => self.child_index as int,
            Stage::ChildRemove => self.child_index as int + 1,
            Stage::OwnSweep => self.children.len() as int,
            Stage::Finished => self.children.len() as int,
        }
    }

    pub open spec fn own_sweep_of(self, s: SweepView) -> bool {
        &&& s.container == self.container
        &&& s.executor == self.executor
        &&& s.filter.cutoff == self.cutoff
    }

    pub open spec fn inv(self) -> bool {
        &&& self.sweep.inv()
        &&& self.children.no_duplicates()
        &&& self.child_index <= self.children.len()
        &&& self.in_child_stage() ==> self.child_index < self.children.len()
        &&& self.stage == Stage::ChildSweep ==> {
            &&& self.sweep.container == self.children[self.child_index as int]
            &&& self.sweep.executor == Executor::Live
            &&& self.sweep.filter.cutoff == self.child_cutoff
            &&& self.sweep.action() != SweepActionView::Complete
        }
        &&& self.stage == Stage::OwnSweep ==> self.own_sweep_of(self.sweep)
            && self.sweep.action() != SweepActionView::Complete
        &&& self.stage == Stage::Finished ==> self.own_sweep_of(self.sweep) && self.sweep.action()
            == SweepActionView::Complete
        &&& self.stage == Stage::Listing ==> self.children.len() == 0 && self.child_index == 0
        &&& (self.stage == Stage::OwnSweep || self.stage == Stage::Finished) ==> self.child_index
            == self.children.len()
        &&& self.counted.len() == self.counted_len()
        &&& self.child_delete_failures <= self.child_index
        &&& self.removed == emptied(self.children, self.counted)
        &&& self.stage == Stage::ChildRemove ==> self.counted.last() == Some(0u64)
    }

    pub open spec fn action(self) -> ActionView {
        match self.stage {
            Stage::Listing => ActionView::ListChildren { container: self.container },
            Stage::ChildCount => ActionView::CountMessages {
                container: self.children[self.child_index as int],
            },
            Stage::ChildRemove => ActionView::DeleteContainer {
                container: self.children[self.child_index as int],
            },
            Stage::Finished => ActionView::Finished,
            _ => match self.sweep.action() {
                SweepActionView::Fetch(r) => ActionView::FetchPage(r),
                SweepActionView::Delete(c) => ActionView::Delete {
                    container: self.sweep.container,
                    call: c,
                },
                SweepActionView::Complete => ActionView::Finished,
            },
        }
    }

    /// Whether the pass is waiting on a fetched page.
    pub open spec fn awaits_page(self) -> bool {
        (self.stage == Stage::ChildSweep || self.stage == Stage::OwnSweep) && self.sweep.scanning
    }

    /// Whether the pass is waiting on a deletion of messages.
    pub open spec fn awaits_delete(self) -> bool {
        (self.stage == Stage::ChildSweep || self.stage == Stage::OwnSweep)
            && self.sweep.action() is Delete
    }
}

/// The pass once its sweep became `s`: a sweep that is over moves it on.
pub open spec fn after_sweep_step(v: PassView, s: SweepView) -> PassView {
    let stage = if s.action() == SweepActionView::Complete {
        if v.stage == Stage::ChildSweep {
            Stage::ChildCount
        } else {
            Stage::Finished
        }
    } else {
        v.stage
    };
    PassView { sweep: s, stage, ..v }
}

/// The pass moved on from the current child: to the next one, or to the
/// container's own sweep.
pub open spec fn next_child(v: PassView) -> PassView {
    if v.child_index + 1 < v.children.len() {
        PassView {
            stage: Stage::ChildSweep,
            child_index: v.child_index + 1,
            sweep: fresh_sweep(v.children[v.child_index as int + 1], v.child_cutoff, Executor::Live),
            ..v
        }
    } else {
        own_sweep_start(v)
    }
}

/// The pass starting the container's own sweep.
pub open spec fn own_sweep_start(v: PassView) -> PassView {
    PassView {
        stage: Stage::OwnSweep,
        child_index: v.children.len(),
        sweep: fresh_sweep(v.container, v.cutoff, v.executor),
        ..v
    }
}

/// One pass over a monitored container.
///
/// The child containers are swept first, one after the other, each under the
/// child policy; a child left without messages is deleted. Then the container's
/// own messages are swept under its policy. The caller performs each call that
/// `action` names and hands the result to the matching method.
pub struct Pass {
    container: u64,
    cutoff: i64,
    child_cutoff: i64,
    executor: Executor,
    stage: Stage,
    children: Vec<u64>,
    child_index: usize,
    sweep: Sweep,
    child_list_failed: bool,
    child_delete_failures: usize,
    counted: Ghost<Seq<Option<u64>>>,
    removed: Ghost<Seq<u64>>,
}

impl Pass {
    pub closed spec fn view(&self) -> PassView {
        PassView {
            container: self.container,
            cutoff: self.cutoff,
            child_cutoff: self.child_cutoff,
            executor: self.executor,
            stage: self.stage,
            children: self.children@,
            child_index: self.child_index as nat,
            sweep: self.sweep.view(),
            child_list_failed: self.child_list_failed,
            child_delete_failures: self.child_delete_failures as nat,
            counted: self.counted@,
            removed: self.removed@,
        }
    }

    /// A pass over `container` at time `now`, under `policy`.
    pub fn new(container: u64, policy: RetentionPolicy, now: i64) -> (r: Pass)
        requires
            cutoff_fits(policy.max_age_ms, now),
            cutoff_fits(CHILD_MAX_AGE_MS, now),
        ensures
            r.view().inv(),
            r.view().container == container,
            r.view().cutoff == cutoff_at(policy.max_age_ms, now),
            r.view().child_cutoff == cutoff_at(CHILD_MAX_AGE_MS, now),
            r.view().executor == (if policy.dry_run {
                Executor::Dry
            } else {
                Executor::Live
            }),
            r.view().stage == Stage::Listing,
            r.view().counted.len() == 0,
            r.view().removed.len() == 0,
            !r.view().child_list_failed,
            r.view().child_delete_failures == 0,
    {
        let cutoff = policy.cutoff(now);
        let child_cutoff = RetentionPolicy::for_child().cutoff(now);
        let executor = policy.executor();
        Pass {
            container,
            cutoff,
            child_cutoff,
            executor,
            stage: Stage::Listing,
            children: Vec::new(),
            child_index: 0,
            sweep: Sweep::new(container, cutoff, executor),
            child_list_failed: false,
            child_delete_failures: 0,
            counted: Ghost(Seq::empty()),
            removed: Ghost(Seq::empty()),
        }
    }

    /// The call to make next.
    pub fn action(&self) -> (r: Action)
        requires
            self.view().inv(),
        ensures
            r@ == self.view().action(),
    {
        match self.stage {
            Stage::Listing => Action::ListChildren { container: self.container },
            Stage::ChildCount => Action::CountMessages { container: self.children[self.child_index] },
            Stage::ChildRemove => Action::DeleteContainer {
                container: self.children[self.child_index],
            },
            Stage::Finished => Action::Finished,
            _ => match self.sweep.action() {
                SweepAction::Fetch(r) => Action::FetchPage(r),
                SweepAction::Delete(c) => Action::Delete { container: self.sweep_container(), call: c },
                SweepAction::Complete => Action::Finished,
            },
        }
    }

    fn sweep_container(&self) -> (r: u64)
        requires
            self.view().inv(),
            self.view().stage == Stage::ChildSweep || self.view().stage == Stage::OwnSweep,
        ensures
            r == self.view().sweep.container,
    {
        if self.stage == Stage::ChildSweep {
            self.children[self.child_index]
        } else {
            self.container
        }
    }

    pub fn stage(&self) -> (r: Stage)
        ensures
            r == self.view().stage,
    {
        self.stage
    }

    pub fn is_finished(&self) -> (r: bool)
        ensures
            r == (self.view().stage == Stage::Finished),
    {
        self.stage == Stage::Finished
    }

    /// Begins the container's own sweep.
    fn start_own_sweep(&mut self)
        requires
            old(self).view().children.no_duplicates(),
        ensures
            final(self).view() == own_sweep_start(old(self).view()),
    {
        self.stage = Stage::OwnSweep;
        self.child_index = self.children.len();
        self.sweep = Sweep::new(self.container, self.cutoff, self.executor);
    }

    /// Moves on from the current child.
    fn advance_child(&mut self)
        requires
            old(self).view().child_index < old(self).view().children.len(),
        ensures
            final(self).view() == next_child(old(self).view()),
    {
        if self.child_index < self.children.len() - 1 {
            self.child_index = self.child_index + 1;
            self.stage = Stage::ChildSweep;
            self.sweep = Sweep::new(self.children[self.child_index], self.child_cutoff, Executor::Live);
        } else {
            self.stage = Stage::OwnSweep;
            self.child_index = self.children.len();
            self.sweep = Sweep::new(self.container, self.cutoff, self.executor);
        }
    }

    /// The sweep under way made a step: a sweep that is over moves the pass on.
    fn settle(&mut self)
        requires
            old(self).view().stage == Stage::ChildSweep || old(self).view().stage == Stage::OwnSweep,
            old(self).view().sweep.inv(),
        ensures
            final(self).view() == after_sweep_step(old(self).view(), old(self).view().sweep),
    {
        if self.sweep.is_complete() {
            if self.stage == Stage::ChildSweep {
                self.stage = Stage::ChildCount;
            } else {
                self.stage = Stage::Finished;
            }
        }
    }

    /// The child containers were listed.
    pub fn on_children(&mut self, listed: &Vec<ChildContainer>)
        requires
            old(self).view().inv(),
            old(self).view().stage == Stage::Listing,
        ensures
            final(self).view().inv(),
            final(self).view() == ({
                let v = PassView {
                    children: children_of(old(self).view().container, listed@),
                    ..old(self).view()
                };
                if v.children.len() == 0 {
                    own_sweep_start(v)
                } else {
                    PassView {
                        stage: Stage::ChildSweep,
                        child_index: 0,
                        sweep: fresh_sweep(v.children[0], v.child_cutoff, Executor::Live),
                        ..v
                    }
                }
            }),
    {
        proof {
            lemma_pass_fresh_sweeps(self.view());
        }
        self.children = select_children(self.container, listed);
        if self.children.len() == 0 {
            self.start_own_sweep();
        } else {
            self.stage = Stage::ChildSweep;
            self.child_index = 0;
            self.sweep = Sweep::new(self.children[0], self.child_cutoff, Executor::Live);
        }
    }

    /// The child containers could not be listed: none is swept this pass.
    pub fn on_children_failed(&mut self)
        requires
            old(self).view().inv(),
            old(self).view().stage == Stage::Listing,
        ensures
            final(self).view().inv(),
            final(self).view() == own_sweep_start(
                PassView { child_list_failed: true, ..old(self).view() },
            ),
    {
        proof {
            lemma_pass_fresh_sweeps(self.view());
        }
        self.child_list_failed = true;
        self.start_own_sweep();
    }

    /// The requested page was fetched.
    pub fn on_page(&mut self, page: Vec<Message>)
        requires
            old(self).view().inv(),
            old(self).view().awaits_page(),
        ensures
            final(self).view().inv(),
            page_step(old(self).view().sweep, page@, final(self).view().sweep),
            final(self).view() == after_sweep_step(old(self).view(), final(self).view().sweep),
    {
        self.sweep.on_page(page);
        self.settle();
    }

    /// The requested page could not be fetched.
    pub fn on_page_failed(&mut self)
        requires
            old(self).view().inv(),
            old(self).view().awaits_page(),
        ensures
            final(self).view().inv(),
            page_failed_step(old(self).view().sweep, final(self).view().sweep),
            final(self).view() == after_sweep_step(old(self).view(), final(self).view().sweep),
    {
        self.sweep.on_page_failed();
        self.settle();
    }

    /// The requested deletion of messages succeeded (`ok`) or failed.
    pub fn on_delete_result(&mut self, ok: bool)
        requires
            old(self).view().inv(),
            old(self).view().awaits_delete(),
        ensures
            final(self).view().inv(),
            delete_step(old(self).view().sweep, ok, final(self).view().sweep),
            final(self).view() == after_sweep_step(old(self).view(), final(self).view().sweep),
    {
        self.sweep.on_delete_result(ok);
        self.settle();
    }

    /// The current child reported `remaining` messages left; `None` where the
    /// count failed. A child with none left is deleted next.
    pub fn on_count(&mut self, remaining: Option<u64>)
        requires
            old(self).view().inv(),
            old(self).view().stage == Stage::ChildCount,
        ensures
            final(self).view().inv(),
            final(self).view() == ({
                let v = PassView {
                    counted: old(self).view().counted.push(remaining),
                    ..old(self).view()
                };
                if remaining == Some(0u64) {
                    PassView {
                        stage: Stage::ChildRemove,
                        removed: v.removed.push(v.children[v.child_index as int]),
                        ..v
                    }
                } else {
                    next_child(v)
                }
            }),
    {
        proof {
            lemma_pass_fresh_sweeps(self.view());
        }
        let ghost old_v = self.view();
        self.counted = Ghost(self.counted@.push(remaining));
        proof {
            assert(self.counted@.drop_last() =~= old_v.counted);
        }
        let empty = match remaining {
            Some(n) => n == 0,
            None => false,
        };
        if empty {
            self.stage = Stage::ChildRemove;
            self.removed = Ghost(self.removed@.push(self.children@[self.child_index as int]));
        } else {
            self.advance_child();
        }
    }

    /// The deletion of the current, empty child succeeded (`ok`) or failed.
    pub fn on_container_deleted(&mut self, ok: bool)
        requires
            old(self).view().inv(),
            old(self).view().stage == Stage::ChildRemove,
        ensures
            final(self).view().inv(),
            final(self).view() == next_child(
                PassView {
                    child_delete_failures: if ok {
                        old(self).view().child_delete_failures
                    } else {
                        old(self).view().child_delete_failures + 1
                    },
                    ..old(self).view()
                },
            ),
    {
        proof {
            lemma_pass_fresh_sweeps(self.view());
        }
        if !ok {
            assert(self.child_delete_failures < self.children.len());
            self.child_delete_failures = self.child_delete_failures + 1;
        }
        self.advance_child();
    }

    /// How the pass ended.
    pub fn report(&self) -> (r: PassReport)
        requires
            self.view().inv(),
            self.view().stage == Stage::Finished,
        ensures
            r.deleted == self.view().sweep.deleter.next,
            r.deleted <= self.view().sweep.filter.deletable.len(),
            r.deleted <= unpinned_ids(self.view().sweep.filter.expired()).len(),
            r.page_failed == self.view().sweep.page_failed,
            r.delete_failed == self.view().sweep.deleter.failed,
            r.child_list_failed == self.view().child_list_failed,
            r.child_delete_failures == self.view().child_delete_failures,
    {
        PassReport {
            deleted: self.sweep.deleted() as u64,
            page_failed: self.sweep.page_failed(),
            delete_failed: self.sweep.delete_failed(),
            child_list_failed: self.child_list_failed,
            child_delete_failures: self.child_delete_failures,
        }
    }
}

/// The emptied children hold no repeats, and hold a child exactly when its
/// count came back zero.
pub proof fn lemma_emptied(children: Seq<u64>, counted: Seq<Option<u64>>)
    requires
        children.no_duplicates(),
        counted.len() <= children.len(),
    ensures
        emptied(children, counted).no_duplicates(),
        forall|x: u64|
            emptied(children, counted).contains(x) <==> exists|i: int|
                0 <= i < counted.len() && children[i] == x && counted[i] == Some(0u64),
    decreases counted.len(),
{
    if counted.len() > 0 {
        let prev_counted = counted.drop_last();
        let prev = emptied(children, prev_counted);
        let n = counted.len() - 1;
        lemma_emptied(children, prev_counted);
        assert(!prev.contains(children[n])) by {
            if prev.contains(children[n]) {
                let i = choose|i: int|
                    0 <= i < prev_counted.len() && children[i] == children[n] && prev_counted[i]
                        == Some(0u64);
                assert(i != n);
            }
        }
        let cur = emptied(children, counted);
        assert forall|x: u64|
            cur.contains(x) <==> exists|i: int|
                0 <= i < counted.len() && children[i] == x && counted[i] == Some(0u64) by {
            if cur.contains(x) {
                if prev.contains(x) {
                    let i = choose|i: int|
                        0 <= i < prev_counted.len() && children[i] == x && prev_counted[i] == Some(
                            0u64,
                        );
                    assert(counted[i] == prev_counted[i]);
                } else {
                    let j = choose|j: int| 0 <= j < cur.len() && cur[j] == x;
                    assert(counted.last() == Some(0u64));
                    assert(j == prev.len());
                    assert(children[n] == x);
                }
            }
            if exists|i: int| 0 <= i < counted.len() && children[i] == x && counted[i] == Some(0u64) {
                let i = choose|i: int|
                    0 <= i < counted.len() && children[i] == x && counted[i] == Some(0u64);
                if i < n {
                    assert(prev_counted[i] == counted[i]);
                    assert(prev.contains(x));
                    if counted.last() == Some(0u64) {
                        assert(cur[prev.index_of(x)] == x);
                    }
                } else {
                    assert(cur.last() == x);
                    assert(cur[cur.len() - 1] == x);
                }
            }
        }
        if counted.last() == Some(0u64) {
            assert forall|a: int, b: int| 0 <= a < b < cur.len() implies cur[a] != cur[b] by {
                if b == cur.len() - 1 {
                    assert(prev.contains(cur[a]));
                }
            }
        }
    }
}

/// Within a pass, a child container whose sweep left it without messages is
/// deleted exactly once; a child with messages left, or whose count failed,
/// is never deleted.
pub proof fn lemma_child_removed_once(p: PassView, i: int)
    requires
        p.inv(),
        0 <= i < p.counted.len(),
    ensures
        p.removed.no_duplicates(),
        p.counted[i] == Some(0u64) ==> p.removed.contains(p.children[i]),
        p.counted[i] != Some(0u64) ==> !p.removed.contains(p.children[i]),
{
    lemma_emptied(p.children, p.counted);
    if p.removed.contains(p.children[i]) {
        let j = choose|j: int|
            0 <= j < p.counted.len() && p.children[j] == p.children[i] && p.counted[j] == Some(
                0u64,
            );
        assert(i == j);
    }
}

/// Every sweep that a pass may start next is well formed and not yet over.
proof fn lemma_pass_fresh_sweeps(v: PassView)
    ensures
        forall|c: u64, cutoff: i64, e: Executor|
            (#[trigger] fresh_sweep(c, cutoff, e)).inv() && fresh_sweep(c, cutoff, e).action()
                != SweepActionView::Complete,
{
    assert forall|c: u64, cutoff: i64, e: Executor|
        (#[trigger] fresh_sweep(c, cutoff, e)).inv() && fresh_sweep(c, cutoff, e).action()
            != SweepActionView::Complete by {
        lemma_fresh_sweep(c, cutoff, e);
    }
}

} // verus!
