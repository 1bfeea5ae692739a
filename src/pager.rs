use vstd::prelude::*;

use crate::message::{all_after, at_time, sort_by_timestamp, sorted_by_time, Message};

verus! {

/// The most messages asked for in one page.
pub const PAGE_SIZE: u64 = 25;

/// A request for the page of messages that follow `after` in `container`.
#[derive(Clone, Copy, Debug, PartialEq, Eq, Structural)]
pub struct PageRequest {
    pub container: u64,
    pub after: u64,
    pub limit: u64,
}

/// A page whose messages do not all follow the cursor it was asked after.
#[derive(Clone, Copy, Debug, PartialEq, Eq, Structural)]
pub struct MalformedPage {
    pub cursor: u64,
}

/// What a pager has done so far.
pub ghost struct PagerView {
    pub container: u64,
    pub cursor: u64,
    /// Whether another page may be fetched.
    pub open: bool,
    /// Every message handed out so far, page after page, each page oldest first.
    pub yielded: Seq<Message>,
}

/// Walks a container oldest first, one page at a time, behind a cursor.
///
/// The caller fetches the page that `next_request` names and hands it to
/// `receive`, which sorts it, advances the cursor to its last message and
/// hands it back. An empty page, a failed fetch or the reader stopping ends
/// the walk for good.
pub struct MessagePager {
    container: u64,
    cursor: u64,
    open: bool,
    yielded: Ghost<Seq<Message>>,
}

impl MessagePager {
    pub closed spec fn view(&self) -> PagerView {
        PagerView {
            container: self.container,
            cursor: self.cursor,
            open: self.open,
            yielded: self.yielded@,
        }
    }

    /// A walk of `container` from its first message.
    pub fn new(container: u64) -> (r: MessagePager)
        ensures
            r.view() == (PagerView { container, cursor: 0, open: true, yielded: Seq::empty() }),
    {
        MessagePager { container, cursor: 0, open: true, yielded: Ghost(Seq::empty()) }
    }

    pub fn is_open(&self) -> (r: bool)
        ensures
            r == self.view().open,
    {
        self.open
    }

    pub fn cursor(&self) -> (r: u64)
        ensures
            r == self.view().cursor,
    {
        self.cursor
    }

    /// The page to fetch next, while the walk goes on.
    pub fn next_request(&self) -> (r: Option<PageRequest>)
        ensures
            r == (if self.view().open {
                Some(
                    PageRequest {
                        container: self.view().container,
                        after: self.view().cursor,
                        limit: PAGE_SIZE,
                    },
                )
            } else {
                None
            }),
    {
        if self.open {
            Some(PageRequest { container: self.container, after: self.cursor, limit: PAGE_SIZE })
        } else {
            None
        }
    }

    /// Takes the page fetched after the cursor and hands it back oldest first.
    ///
    /// A page with a message at or before the cursor is refused and ends the
    /// walk. An empty page ends the walk. Otherwise the cursor moves to the
    /// last message of the sorted page, strictly forward.
    pub fn receive(&mut self, page: Vec<Message>) -> (r: Result<Vec<Message>, MalformedPage>)
        requires
            old(self).view().open,
        ensures
            final(self).view().container == old(self).view().container,
            match r {
                Ok(sorted) => {
                    &&& all_after(page@, old(self).view().cursor)
                    &&& sorted@.len() == page@.len()
                    &&& sorted@.to_multiset() == page@.to_multiset()
                    &&& sorted_by_time(sorted@)
                    &&& forall|t: i64| at_time(sorted@, t) == at_time(page@, t)
                    &&& all_after(sorted@, old(self).view().cursor)
                    &&& final(self).view().yielded == old(self).view().yielded + sorted@
                    &&& final(self).view().open == (page@.len() > 0)
                    &&& final(self).view().cursor == (if page@.len() > 0 {
                        sorted@.last().id
                    } else {
                        old(self).view().cursor
                    })
                },
                Err(e) => {
                    &&& !all_after(page@, old(self).view().cursor)
                    &&& e == MalformedPage { cursor: old(self).view().cursor }
                    &&& final(self).view() == (PagerView { open: false, ..old(self).view() })
                },
            },
            page@.len() > 0 && r is Ok ==> final(self).view().cursor > old(self).view().cursor,
    {
        let mut sorted = page;
        sort_by_timestamp(&mut sorted);
        proof {
            sorted@.to_multiset_ensures();
            page@.to_multiset_ensures();
            assert forall|a: Message| sorted@.contains(a) <==> page@.contains(a) by {
                assert(sorted@.to_multiset().count(a) == page@.to_multiset().count(a));
            }
        }
        if !all_after_cursor(&sorted, self.cursor) {
            proof {
                let j = choose|j: int| 0 <= j < sorted@.len() && !(sorted@[j].id > self.cursor);
                assert(page@.contains(sorted@[j]));
            }
            self.open = false;
            return Err(MalformedPage { cursor: self.cursor });
        }
        proof {
            assert forall|j: int| 0 <= j < page@.len() implies (#[trigger] page@[j]).id
                > self.cursor by {
                assert(page@.contains(page@[j]));
            }
        }
        if sorted.len() == 0 {
            self.open = false;
        } else {
            self.cursor = sorted[sorted.len() - 1].id;
        }
        self.yielded = Ghost(self.yielded@ + sorted@);
        Ok(sorted)
    }

    /// A fetch failed: the walk ends.
    pub fn fail(&mut self)
        ensures
            final(self).view() == (PagerView { open: false, ..old(self).view() }),
    {
        self.open = false;
    }

    /// The reader needs no more messages: the walk ends and no page is fetched again.
    pub fn stop(&mut self)
        ensures
            final(self).view() == (PagerView { open: false, ..old(self).view() }),
    {
        self.open = false;
    }
}

/// Whether every message of `s` has an id greater than `cursor`.
fn all_after_cursor(s: &Vec<Message>, cursor: u64) -> (r: bool)
    ensures
        r == all_after(s@, cursor),
{
    let mut i: usize = 0;
    while i < s.len()
        invariant
            0 <= i <= s@.len(),
            forall|j: int| 0 <= j < i ==> (#[trigger] s@[j]).id > cursor,
        decreases s@.len() - i,
    {
        if s[i].id <= cursor {
            return false;
        }
        i = i + 1;
    }
    true
}

} // verus!
