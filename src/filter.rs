use vstd::prelude::*;

use crate::message::{
    expired_boundary, is_expired, lemma_unpinned_ids_push, unpinned_ids, Message,
};

verus! {

/// What a filter has evaluated so far.
pub ghost struct FilterView {
    pub cutoff: i64,
    /// Set once a message at or after the cutoff has been evaluated.
    pub halted: bool,
    /// Every message evaluated, in order; when halted, the last one is the
    /// first message that was not expired.
    pub seen: Seq<Message>,
    /// The ids marked for deletion, in order.
    pub deletable: Seq<u64>,
}

impl FilterView {
    /// The expired messages evaluated: all that were seen but the one that halted the filter.
    pub open spec fn expired(self) -> Seq<Message> {
        if self.halted {
            self.seen.drop_last()
        } else {
            self.seen
        }
    }

    pub open spec fn inv(self) -> bool {
        &&& self.halted ==> self.seen.len() > 0
        &&& expired_boundary(self.seen, self.cutoff, self.expired().len() as int)
        &&& self.deletable == unpinned_ids(self.expired())
    }
}

/// Consumes messages oldest first while they are older than the cutoff.
///
/// Each expired message that is not pinned is marked for deletion; a pinned
/// one is seen and kept. The first message at or after the cutoff halts the
/// filter: nothing after it is evaluated.
pub struct ExpirationFilter {
    cutoff: i64,
    halted: bool,
    deletable: Vec<u64>,
    seen: Ghost<Seq<Message>>,
}

impl ExpirationFilter {
    pub closed spec fn view(&self) -> FilterView {
        FilterView {
            cutoff: self.cutoff,
            halted: self.halted,
            seen: self.seen@,
            deletable: self.deletable@,
        }
    }

    pub fn new(cutoff: i64) -> (r: ExpirationFilter)
        ensures
            r.view() == (FilterView {
                cutoff,
                halted: false,
                seen: Seq::empty(),
                deletable: Seq::empty(),
            }),
            r.view().inv(),
    {
        let r = ExpirationFilter {
            cutoff,
            halted: false,
            deletable: Vec::new(),
            seen: Ghost(Seq::empty()),
        };
        proof {
            assert(r.view().expired() =~= Seq::<Message>::empty());
        }
        r
    }

    pub fn is_halted(&self) -> (r: bool)
        ensures
            r == self.view().halted,
    {
        self.halted
    }

    /// The ids marked for deletion so far, oldest first.
    pub fn deletable(&self) -> (r: &Vec<u64>)
        ensures
            r@ == self.view().deletable,
    {
        &self.deletable
    }

    /// Evaluates one message; true when it was expired and the filter goes on.
    pub fn offer(&mut self, m: Message) -> (more: bool)
        requires
            !old(self).view().halted,
            old(self).view().inv(),
        ensures
            more == is_expired(m, old(self).view().cutoff),
            final(self).view() == (FilterView {
                halted: !more,
                seen: old(self).view().seen.push(m),
                deletable: if more && !m.pinned {
                    old(self).view().deletable.push(m.id)
                } else {
                    old(self).view().deletable
                },
                ..old(self).view()
            }),
            final(self).view().inv(),
    {
        let ghost before = self.view();
        proof {
            lemma_unpinned_ids_push(before.seen, m);
            assert(before.seen.push(m).drop_last() =~= before.seen);
        }
        self.seen = Ghost(self.seen@.push(m));
        if m.timestamp < self.cutoff {
            if !m.pinned {
                self.deletable.push(m.id);
            }
            true
        } else {
            self.halted = true;
            false
        }
    }

    /// Evaluates a page, oldest first, up to and including its first message
    /// that is not expired. Returns how many messages at the start of the
    /// page are expired; the filter halted unless that is the whole page.
    pub fn offer_page(&mut self, page: &Vec<Message>) -> (k: usize)
        requires
            !old(self).view().halted,
            old(self).view().inv(),
        ensures
            expired_boundary(page@, old(self).view().cutoff, k as int),
            final(self).view().halted == (k < page@.len()),
            final(self).view().cutoff == old(self).view().cutoff,
            final(self).view().seen == old(self).view().seen + page@.take(
                if k < page@.len() {
                    k + 1
                } else {
                    k as int
                },
            ),
            final(self).view().inv(),
    {
        let ghost seen0 = self.view().seen;
        let mut i: usize = 0;
        while i < page.len()
            invariant
                0 <= i <= page@.len(),
                !self.view().halted,
                self.view().inv(),
                self.view().cutoff == old(self).view().cutoff,
                seen0 == old(self).view().seen,
                self.view().seen == seen0 + page@.take(i as int),
                forall|j: int| 0 <= j < i ==> is_expired(#[trigger] page@[j], self.view().cutoff),
            decreases page@.len() - i,
        {
            let more = self.offer(page[i]);
            proof {
                assert(page@.take(i + 1) =~= page@.take(i as int).push(page@[i as int]));
                assert(self.view().seen =~= seen0 + page@.take(i + 1));
            }
            if !more {
                return i;
            }
            i = i + 1;
        }
        proof {
            assert(page@.take(i as int) =~= page@.take(page@.len() as int));
        }
        i
    }
}

} // verus!
