use vstd::prelude::*;

verus! {

/// The most ids that one batch deletion takes.
pub const BATCH_MAX: usize = 100;

/// The fewest ids that one batch deletion takes.
pub const BATCH_MIN: usize = 2;

/// How deletions are carried out: for real, or only counted.
#[derive(Clone, Copy, Debug, PartialEq, Eq, Structural)]
pub enum Executor {
    Live,
    Dry,
}

/// One deletion call.
#[derive(Debug, PartialEq, Eq)]
pub enum DeleteCall {
    One(u64),
    Batch(Vec<u64>),
}

/// A deletion call, in the abstract.
pub ghost enum CallView {
    One(u64),
    Batch(Seq<u64>),
}

impl View for DeleteCall {
    type V = CallView;

    open spec fn view(&self) -> CallView {
        match self {
            DeleteCall::One(id) => CallView::One(*id),
            DeleteCall::Batch(ids) => CallView::Batch(ids@),
        }
    }
}

/// How many ids the next chunk of `rest` takes.
pub open spec fn chunk_len(rest: Seq<u64>) -> int {
    if rest.len() < BATCH_MAX {
        rest.len() as int
    } else {
        BATCH_MAX as int
    }
}

/// The call for the next chunk of `rest`: a batch of up to `BATCH_MAX` ids, or
/// a single deletion where fewer than `BATCH_MIN` ids are left.
pub open spec fn chunk_call(rest: Seq<u64>) -> CallView {
    if rest.len() < BATCH_MIN {
        CallView::One(rest[0])
    } else {
        CallView::Batch(rest.take(chunk_len(rest)))
    }
}

/// Every call that deleting `ids` takes, in order.
pub open spec fn plan(ids: Seq<u64>) -> Seq<CallView>
    decreases ids.len(),
{
    if ids.len() == 0 {
        Seq::empty()
    } else if ids.len() <= BATCH_MAX {
        seq![chunk_call(ids)]
    } else {
        seq![chunk_call(ids)] + plan(ids.skip(BATCH_MAX as int))
    }
}

/// What a deleter has done so far.
pub ghost struct DeleterView {
    pub ids: Seq<u64>,
    pub executor: Executor,
    /// How many ids, from the start, were deleted.
    pub next: nat,
    /// Whether a call failed; nothing is attempted after it.
    pub failed: bool,
    /// The calls that succeeded, in order.
    pub done: Seq<CallView>,
}

impl DeleterView {
    pub open spec fn inv(self) -> bool {
        &&& self.next <= self.ids.len()
        &&& self.done + plan(self.ids.skip(self.next as int)) == plan(self.ids)
        &&& self.executor == Executor::Dry ==> self.next == 0 && self.done.len() == 0
    }

    /// The call to make next, if any.
    pub open spec fn pending(self) -> Option<CallView> {
        if self.executor == Executor::Live && !self.failed && self.next < self.ids.len() {
            Some(chunk_call(self.ids.skip(self.next as int)))
        } else {
            None
        }
    }
}

/// Deletes a list of ids in chunks, one call at a time.
///
/// Chunks hold at most `BATCH_MAX` ids; a last chunk of a single id is
/// deleted by a single-item call. A failed call ends the run: the chunks
/// before it stay deleted and no further call is made. The dry executor makes
/// no call and deletes nothing.
pub struct BatchDeleter {
    ids: Vec<u64>,
    executor: Executor,
    next: usize,
    failed: bool,
    done: Ghost<Seq<CallView>>,
}

impl BatchDeleter {
    pub closed spec fn view(&self) -> DeleterView {
        DeleterView {
            ids: self.ids@,
            executor: self.executor,
            next: self.next as nat,
            failed: self.failed,
            done: self.done@,
        }
    }

    pub fn new(ids: Vec<u64>, executor: Executor) -> (r: BatchDeleter)
        ensures
            r.view() == (DeleterView {
                ids: ids@,
                executor,
                next: 0,
                failed: false,
                done: Seq::empty(),
            }),
            r.view().inv(),
    {
        let r = BatchDeleter { ids, executor, next: 0, failed: false, done: Ghost(Seq::empty()) };
        proof {
            assert(r.ids@.skip(0) =~= r.ids@);
            assert(Seq::<CallView>::empty() + plan(r.ids@) =~= plan(r.ids@));
        }
        r
    }

    /// How many ids were deleted.
    pub fn deleted(&self) -> (r: usize)
        ensures
            r == self.view().next,
    {
        self.next
    }

    /// How many ids were handed in.
    pub fn candidates(&self) -> (r: usize)
        ensures
            r == self.view().ids.len(),
    {
        self.ids.len()
    }

    pub fn has_failed(&self) -> (r: bool)
        ensures
            r == self.view().failed,
    {
        self.failed
    }

    /// The call to make next; `None` once the run is over.
    pub fn pending(&self) -> (r: Option<DeleteCall>)
        requires
            self.view().inv(),
        ensures
            r is Some <==> self.view().pending() is Some,
            r matches Some(c) ==> Some(c@) == self.view().pending(),
            r matches Some(DeleteCall::Batch(b)) ==> BATCH_MIN <= b@.len() <= BATCH_MAX,
    {
        if self.executor == Executor::Dry || self.failed || self.next >= self.ids.len() {
            return None;
        }
        let rest = self.ids.len() - self.next;
        if rest < BATCH_MIN {
            return Some(DeleteCall::One(self.ids[self.next]));
        }
        let end: usize = if rest < BATCH_MAX {
            self.ids.len()
        } else {
            self.next + BATCH_MAX
        };
        let mut chunk: Vec<u64> = Vec::new();
        let mut i: usize = self.next;
        while i < end
            invariant
                self.next <= i <= end <= self.ids@.len(),
                chunk@ == self.ids@.subrange(self.next as int, i as int),
            decreases end - i,
        {
            chunk.push(self.ids[i]);
            i = i + 1;
        }
        proof {
            let s = self.ids@.skip(self.next as int);
            assert(chunk@ =~= s.take(chunk_len(s)));
        }
        Some(DeleteCall::Batch(chunk))
    }

    /// The pending call succeeded.
    pub fn on_success(&mut self)
        requires
            old(self).view().inv(),
            old(self).view().pending() is Some,
        ensures
            final(self).view() == (DeleterView {
                next: (old(self).view().next + chunk_len(
                    old(self).view().ids.skip(old(self).view().next as int),
                )) as nat,
                done: old(self).view().done.push(old(self).view().pending()->Some_0),
                ..old(self).view()
            }),
            final(self).view().inv(),
    {
        let ghost before = self.view();
        let ghost rest = before.ids.skip(before.next as int);
        let step: usize = if self.ids.len() - self.next < BATCH_MAX {
            self.ids.len() - self.next
        } else {
            BATCH_MAX
        };
        self.next = self.next + step;
        self.done = Ghost(self.done@.push(chunk_call(rest)));
        proof {
            let after = self.view();
            if rest.len() <= BATCH_MAX {
                assert(after.ids.skip(after.next as int) =~= Seq::<u64>::empty());
                assert(after.done + plan(Seq::<u64>::empty()) =~= before.done + plan(rest));
            } else {
                assert(rest.skip(BATCH_MAX as int) =~= after.ids.skip(after.next as int));
                assert(after.done + plan(after.ids.skip(after.next as int)) =~= before.done
                    + plan(rest));
            }
        }
    }

    /// The pending call failed: the run ends.
    pub fn on_failure(&mut self)
        requires
            old(self).view().inv(),
            old(self).view().pending() is Some,
        ensures
            final(self).view() == (DeleterView { failed: true, ..old(self).view() }),
            final(self).view().inv(),
    {
        self.failed = true;
    }
}

/// A copy of a list of ids.
pub(crate) fn copy_ids(v: &Vec<u64>) -> (r: Vec<u64>)
    ensures
        r@ == v@,
{
    let mut r: Vec<u64> = Vec::new();
    let mut i: usize = 0;
    while i < v.len()
        invariant
            0 <= i <= v@.len(),
            r@ == v@.take(i as int),
        decreases v@.len() - i,
    {
        r.push(v[i]);
        proof {
            assert(v@.take(i + 1) =~= v@.take(i as int).push(v@[i as int]));
        }
        i = i + 1;
    }
    proof {
        assert(v@.take(v@.len() as int) =~= v@);
    }
    r
}

/// The calls that delete a list of ids: every batch holds between `BATCH_MIN`
/// and `BATCH_MAX` ids, every call holds at least one id, and a list of a
/// single id is deleted by exactly one single-item call and no batch.
pub proof fn lemma_plan_bounds(ids: Seq<u64>)
    ensures
        forall|i: int|
            0 <= i < plan(ids).len() ==> match #[trigger] plan(ids)[i] {
                CallView::Batch(b) => BATCH_MIN <= b.len() <= BATCH_MAX,
                CallView::One(_) => true,
            },
        ids.len() == 1 ==> plan(ids) == seq![CallView::One(ids[0])],
        ids.len() == 0 ==> plan(ids).len() == 0,
    decreases ids.len(),
{
    if ids.len() > BATCH_MAX {
        let rest = ids.skip(BATCH_MAX as int);
        lemma_plan_bounds(rest);
        assert forall|i: int| 0 <= i < plan(ids).len() implies match #[trigger] plan(ids)[i] {
            CallView::Batch(b) => BATCH_MIN <= b.len() <= BATCH_MAX,
            CallView::One(_) => true,
        } by {
            if i > 0 {
                assert(plan(ids)[i] == plan(rest)[i - 1]);
            }
        }
    }
}

/// A finished run that did not fail made every planned call and deleted every id.
pub proof fn lemma_finished_run(d: DeleterView)
    requires
        d.inv(),
        d.executor == Executor::Live,
        !d.failed,
        d.pending() is None,
    ensures
        d.done == plan(d.ids),
        d.next == d.ids.len(),
{
    assert(d.ids.skip(d.ids.len() as int) =~= Seq::<u64>::empty());
    assert(d.done + Seq::<CallView>::empty() =~= d.done);
}

} // verus!
