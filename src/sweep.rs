use vstd::prelude::*;

use crate::deleter::{
    chunk_len, copy_ids, BatchDeleter, CallView, DeleteCall, DeleterView, Executor,
};
use crate::filter::{ExpirationFilter, FilterView};
use crate::message::{
    all_after, at_time, expired_boundary, is_expired, lemma_sorted_prefix_holds_all_expired,
    sorted_by_time, unpinned_ids, Message,
};
use crate::pager::{MessagePager, PageRequest, PagerView, PAGE_SIZE};

verus! {

/// What a sweep asks of the platform next.
#[derive(Debug, PartialEq, Eq)]
pub enum SweepAction {
    /// Fetch this page and hand it to `on_page`, or report the failure to `on_page_failed`.
    Fetch(PageRequest),
    /// Make this deletion call in the swept container and report to `on_delete_result`.
    Delete(DeleteCall),
    /// Nothing: the sweep is over.
    Complete,
}

pub ghost enum SweepActionView {
    Fetch(PageRequest),
    Delete(CallView),
    Complete,
}

impl View for SweepAction {
    type V = SweepActionView;

    open spec fn view(&self) -> SweepActionView {
        match self {
            SweepAction::Fetch(r) => SweepActionView::Fetch(*r),
            SweepAction::Delete(c) => SweepActionView::Delete(c@),
            SweepAction::Complete => SweepActionView::Complete,
        }
    }
}

/// What a sweep has done so far.
pub ghost struct SweepView {
    pub container: u64,
    pub executor: Executor,
    /// Still paging and filtering; no deletion has been attempted yet.
    pub scanning: bool,
    /// The paging ended on a failed fetch or a malformed page.
    pub page_failed: bool,
    pub pager: PagerView,
    pub filter: FilterView,
    pub deleter: DeleterView,
}

/// A deleter that has been handed the ids `ids` and has made no call.
pub open spec fn fresh_deleter(ids: Seq<u64>, executor: Executor) -> DeleterView {
    DeleterView { ids, executor, next: 0, failed: false, done: Seq::empty() }
}

/// A sweep of `container` that has done nothing yet.
pub open spec fn fresh_sweep(container: u64, cutoff: i64, executor: Executor) -> SweepView {
    SweepView {
        container,
        executor,
        scanning: true,
        page_failed: false,
        pager: PagerView { container, cursor: 0, open: true, yielded: Seq::empty() },
        filter: FilterView { cutoff, halted: false, seen: Seq::empty(), deletable: Seq::empty() },
        deleter: fresh_deleter(Seq::empty(), executor),
    }
}

/// A fresh sweep is well formed and asks for the first page.
pub proof fn lemma_fresh_sweep(container: u64, cutoff: i64, executor: Executor)
    ensures
        fresh_sweep(container, cutoff, executor).inv(),
        fresh_sweep(container, cutoff, executor).action() == SweepActionView::Fetch(
            PageRequest { container, after: 0, limit: PAGE_SIZE },
        ),
{
    let s = fresh_sweep(container, cutoff, executor);
    assert(s.pager.yielded.take(0) =~= s.filter.seen);
    assert(s.filter.expired() =~= Seq::<Message>::empty());
    assert(Seq::<u64>::empty().skip(0) =~= Seq::<u64>::empty());
    assert(Seq::<CallView>::empty() + crate::deleter::plan(Seq::<u64>::empty()) =~= crate::deleter::plan(Seq::<u64>::empty()));
}

/// How a sweep moves from `old` to `new` on receiving `page`.
pub open spec fn page_step(old: SweepView, page: Seq<Message>, new: SweepView) -> bool {
    &&& new.inv()
    &&& new.container == old.container
    &&& new.executor == old.executor
    &&& new.filter.cutoff == old.filter.cutoff
    &&& !all_after(page, old.pager.cursor) ==> {
        &&& new.page_failed
        &&& !new.scanning
        &&& new.pager.yielded == old.pager.yielded
        &&& new.pager.cursor == old.pager.cursor
        &&& new.filter == old.filter
    }
    &&& all_after(page, old.pager.cursor) ==> ({
        let sorted = new.pager.yielded.skip(old.pager.yielded.len() as int);
        &&& !new.page_failed
        &&& new.pager.yielded.len() == old.pager.yielded.len() + page.len()
        &&& new.pager.yielded.take(old.pager.yielded.len() as int) == old.pager.yielded
        &&& sorted_by_time(sorted)
        &&& sorted.to_multiset() == page.to_multiset()
        &&& forall|t: i64| at_time(sorted, t) == at_time(page, t)
        &&& page.len() > 0 ==> new.pager.cursor == sorted.last().id && new.pager.cursor
            > old.pager.cursor
        &&& page.len() == 0 ==> new.pager.cursor == old.pager.cursor
        &&& exists|k: int|
            {
                &&& expired_boundary(sorted, old.filter.cutoff, k)
                &&& new.filter.seen == old.filter.seen + sorted.take(
                    if k < sorted.len() {
                        k + 1
                    } else {
                        k
                    },
                )
                &&& new.filter.halted == (k < sorted.len())
            }
        &&& new.scanning == (page.len() > 0 && !new.filter.halted)
    })
    &&& !new.scanning ==> new.deleter == fresh_deleter(new.filter.deletable, new.executor)
}

/// How a sweep moves from `old` to `new` when its fetch failed.
pub open spec fn page_failed_step(old: SweepView, new: SweepView) -> bool {
    &&& new == (SweepView {
        scanning: false,
        page_failed: true,
        pager: PagerView { open: false, ..old.pager },
        deleter: fresh_deleter(old.filter.deletable, old.executor),
        ..old
    })
    &&& new.inv()
}

/// How a sweep moves from `old` to `new` when its deletion call succeeded (`ok`) or failed.
pub open spec fn delete_step(old: SweepView, ok: bool, new: SweepView) -> bool {
    &&& new == (SweepView {
        deleter: if ok {
            DeleterView {
                next: (old.deleter.next + chunk_len(old.deleter.ids.skip(old.deleter.next as int)))
                    as nat,
                done: old.deleter.done.push(old.deleter.pending()->Some_0),
                ..old.deleter
            }
        } else {
            DeleterView { failed: true, ..old.deleter }
        },
        ..old
    })
    &&& new.inv()
}

impl SweepView {
    pub open spec fn inv(self) -> bool {
        &&& self.pager.container == self.container
        &&& self.filter.inv()
        &&& self.deleter.inv()
        &&& self.deleter.executor == self.executor
        &&& self.filter.seen.len() <= self.pager.yielded.len()
        &&& self.pager.yielded.take(self.filter.seen.len() as int) == self.filter.seen
        &&& !self.filter.halted ==> self.filter.seen == self.pager.yielded
        &&& self.filter.halted ==> !self.pager.open
        &&& self.scanning ==> {
            &&& self.pager.open
            &&& !self.page_failed
            &&& self.deleter == fresh_deleter(Seq::empty(), self.executor)
        }
        &&& !self.scanning ==> {
            &&& !self.pager.open
            &&& self.deleter.ids == self.filter.deletable
        }
    }

    pub open spec fn action(self) -> SweepActionView {
        if self.scanning {
            SweepActionView::Fetch(
                PageRequest { container: self.container, after: self.pager.cursor, limit: PAGE_SIZE },
            )
        } else {
            match self.deleter.pending() {
                Some(c) => SweepActionView::Delete(c),
                None => SweepActionView::Complete,
            }
        }
    }
}

/// One sweep of one container: pages through it oldest first, marks the
/// expired messages that are not pinned, stops at the first message that is
/// not expired, then deletes what was marked.
///
/// A failed or malformed page ends the paging; what was marked before it is
/// still deleted. A failed deletion ends the sweep; what was deleted before
/// it stays deleted.
pub struct Sweep {
    container: u64,
    executor: Executor,
    scanning: bool,
    page_failed: bool,
    pager: MessagePager,
    filter: ExpirationFilter,
    deleter: BatchDeleter,
}

impl Sweep {
    pub closed spec fn view(&self) -> SweepView {
        SweepView {
            container: self.container,
            executor: self.executor,
            scanning: self.scanning,
            page_failed: self.page_failed,
            pager: self.pager.view(),
            filter: self.filter.view(),
            deleter: self.deleter.view(),
        }
    }

    /// A sweep of `container` that deletes what is older than `cutoff`.
    pub fn new(container: u64, cutoff: i64, executor: Executor) -> (r: Sweep)
        ensures
            r.view() == fresh_sweep(container, cutoff, executor),
            r.view().inv(),
    {
        let r = Sweep {
            container,
            executor,
            scanning: true,
            page_failed: false,
            pager: MessagePager::new(container),
            filter: ExpirationFilter::new(cutoff),
            deleter: BatchDeleter::new(Vec::new(), executor),
        };
        proof {
            assert(r.view().pager.yielded.take(0) =~= Seq::<Message>::empty());
        }
        r
    }

    /// What to do next.
    pub fn action(&self) -> (r: SweepAction)
        requires
            self.view().inv(),
        ensures
            r@ == self.view().action(),
    {
        if self.scanning {
            match self.pager.next_request() {
                Some(req) => SweepAction::Fetch(req),
                None => SweepAction::Complete,
            }
        } else {
            match self.deleter.pending() {
                Some(c) => SweepAction::Delete(c),
                None => SweepAction::Complete,
            }
        }
    }

    pub fn is_complete(&self) -> (r: bool)
        requires
            self.view().inv(),
        ensures
            r == (self.view().action() == SweepActionView::Complete),
    {
        !self.scanning && self.deleter.pending().is_none()
    }

    /// How many messages were deleted.
    pub fn deleted(&self) -> (r: usize)
        ensures
            r == self.view().deleter.next,
    {
        self.deleter.deleted()
    }

    /// How many messages were marked for deletion.
    pub fn marked(&self) -> (r: usize)
        requires
            self.view().inv(),
        ensures
            r == self.view().filter.deletable.len(),
    {
        self.filter.deletable().len()
    }

    pub fn page_failed(&self) -> (r: bool)
        ensures
            r == self.view().page_failed,
    {
        self.page_failed
    }

    pub fn delete_failed(&self) -> (r: bool)
        ensures
            r == self.view().deleter.failed,
    {
        self.deleter.has_failed()
    }

    /// Paging is over: hand what was marked to the deleter.
    fn start_deleting(&mut self)
        requires
            old(self).view().filter.inv(),
        ensures
            final(self).view() == (SweepView {
                scanning: false,
                deleter: fresh_deleter(old(self).view().filter.deletable, old(self).view().executor),
                ..old(self).view()
            }),
            final(self).view().deleter.inv(),
    {
        let ids = copy_ids(self.filter.deletable());
        self.deleter = BatchDeleter::new(ids, self.executor);
        self.scanning = false;
    }

    /// The requested page was fetched.
    pub fn on_page(&mut self, page: Vec<Message>)
        requires
            old(self).view().inv(),
            old(self).view().scanning,
        ensures
            page_step(old(self).view(), page@, final(self).view()),
    {
        let ghost old_v = self.view();
        match self.pager.receive(page) {
            Err(_) => {
                self.page_failed = true;
                self.start_deleting();
            },
            Ok(sorted) => {
                proof {
                    assert(self.pager.view().yielded.skip(old_v.pager.yielded.len() as int)
                        =~= sorted@);
                    assert(self.pager.view().yielded.take(old_v.pager.yielded.len() as int)
                        =~= old_v.pager.yielded);
                }
                if sorted.len() == 0 {
                    proof {
                        assert(expired_boundary(sorted@, old_v.filter.cutoff, 0));
                        assert(sorted@.take(0) =~= Seq::<Message>::empty());
                        assert(old_v.filter.seen + sorted@.take(0) =~= old_v.filter.seen);
                    }
                    self.start_deleting();
                } else {
                    let k = self.filter.offer_page(&sorted);
                    proof {
                        let v = self.view();
                        let n: int = if k < sorted@.len() {
                            k + 1
                        } else {
                            k as int
                        };
                        assert(v.pager.yielded =~= old_v.pager.yielded + sorted@);
                        assert(v.pager.yielded.take(v.filter.seen.len() as int) =~= old_v.filter.seen
                            + sorted@.take(n));
                        assert(expired_boundary(sorted@, old_v.filter.cutoff, k as int));
                        if k == sorted@.len() {
                            assert(sorted@.take(k as int) =~= sorted@);
                            assert(v.filter.seen =~= v.pager.yielded);
                        }
                    }
                    if k < sorted.len() {
                        self.pager.stop();
                        self.start_deleting();
                    }
                }
            },
        }
    }

    /// The requested page could not be fetched: paging ends, and what was
    /// marked so far is deleted.
    pub fn on_page_failed(&mut self)
        requires
            old(self).view().inv(),
            old(self).view().scanning,
        ensures
            page_failed_step(old(self).view(), final(self).view()),
    {
        self.pager.fail();
        self.page_failed = true;
        self.start_deleting();
    }

    /// The requested deletion call succeeded, or failed.
    pub fn on_delete_result(&mut self, ok: bool)
        requires
            old(self).view().inv(),
            old(self).view().action() is Delete,
        ensures
            delete_step(old(self).view(), ok, final(self).view()),
    {
        if ok {
            self.deleter.on_success();
        } else {
            self.deleter.on_failure();
        }
    }
}

/// Whatever the pages held, a sweep evaluates exactly the expired prefix of
/// the messages it paged through, and at most the one message after it; it
/// fetches no page once it met a message that is not expired; and it marks
/// for deletion exactly the messages of that prefix that are not pinned.
/// Where the paged messages are ordered oldest first, that prefix holds every
/// expired message paged.
pub proof fn lemma_sweep_takes_expired_prefix(s: SweepView)
    requires
        s.inv(),
    ensures
        expired_boundary(s.pager.yielded, s.filter.cutoff, s.filter.expired().len() as int),
        s.filter.expired() == s.pager.yielded.take(s.filter.expired().len() as int),
        s.filter.seen.len() <= s.filter.expired().len() + 1,
        s.filter.halted ==> !s.pager.open && s.action() !is Fetch,
        s.filter.deletable == unpinned_ids(s.pager.yielded.take(s.filter.expired().len() as int)),
        sorted_by_time(s.pager.yielded) ==> s.pager.yielded.take(s.filter.expired().len() as int)
            == s.pager.yielded.filter(|m: Message| is_expired(m, s.filter.cutoff)),
{
    let y = s.pager.yielded;
    let f = s.filter;
    let k = f.expired().len() as int;
    if f.halted {
        assert(f.expired() =~= y.take(k));
        assert(y[k] == f.seen[k]);
        assert forall|i: int| 0 <= i < k implies is_expired(#[trigger] y[i], f.cutoff) by {
            assert(y[i] == f.seen[i]);
        }
    } else {
        assert(y.take(k) =~= y);
    }
    if sorted_by_time(y) {
        lemma_sorted_prefix_holds_all_expired(y, f.cutoff, k);
    }
}

} // verus!
