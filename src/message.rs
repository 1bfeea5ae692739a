use vstd::prelude::*;

verus! {

/// A message as the sweeper sees it: its id (ordered as messages were
/// created), its creation time in milliseconds since the Unix epoch, and
/// whether it is pinned.
#[derive(Clone, Copy, Debug, PartialEq, Eq, Structural)]
pub struct Message {
    pub id: u64,
    pub timestamp: i64,
    pub pinned: bool,
}

impl Message {
    pub fn new(id: u64, timestamp: i64, pinned: bool) -> (r: Message)
        ensures
            r == (Message { id, timestamp, pinned }),
    {
        Message { id, timestamp, pinned }
    }
}

/// A message is expired when it was created strictly before the cutoff.
pub open spec fn is_expired(m: Message, cutoff: i64) -> bool {
    m.timestamp < cutoff
}

/// Oldest first: timestamps never decrease along the sequence.
pub open spec fn sorted_by_time(s: Seq<Message>) -> bool {
    forall|i: int, j: int| 0 <= i < j < s.len() ==> s[i].timestamp <= s[j].timestamp
}

/// The messages of `s` created at time `t`, in their order in `s`.
pub open spec fn at_time(s: Seq<Message>, t: i64) -> Seq<Message> {
    s.filter(|m: Message| m.timestamp == t)
}

/// `k` is where the expired prefix of `s` ends: every message before it is
/// expired, and it is either the end of `s` or a message that is not.
pub open spec fn expired_boundary(s: Seq<Message>, cutoff: i64, k: int) -> bool {
    &&& 0 <= k <= s.len()
    &&& forall|i: int| 0 <= i < k ==> is_expired(#[trigger] s[i], cutoff)
    &&& k < s.len() ==> !is_expired(s[k], cutoff)
}

/// The ids of the messages of `s` that are not pinned, in order.
pub open spec fn unpinned_ids(s: Seq<Message>) -> Seq<u64>
    decreases s.len(),
{
    if s.len() == 0 {
        Seq::empty()
    } else if s.last().pinned {
        unpinned_ids(s.drop_last())
    } else {
        unpinned_ids(s.drop_last()).push(s.last().id)
    }
}

/// Every message of `s` has an id greater than `cursor`.
pub open spec fn all_after(s: Seq<Message>, cursor: u64) -> bool {
    forall|i: int| 0 <= i < s.len() ==> (#[trigger] s[i]).id > cursor
}

/// Appending one message extends the unpinned ids by its id, unless it is pinned.
pub proof fn lemma_unpinned_ids_push(s: Seq<Message>, m: Message)
    ensures
        unpinned_ids(s.push(m)) == (if m.pinned {
            unpinned_ids(s)
        } else {
            unpinned_ids(s).push(m.id)
        }),
{
    assert(s.push(m).drop_last() =~= s);
}

/// In a sequence sorted oldest first, the expired prefix holds every expired
/// message: stopping at the first message that is not expired misses none.
pub proof fn lemma_sorted_prefix_holds_all_expired(s: Seq<Message>, cutoff: i64, k: int)
    requires
        sorted_by_time(s),
        expired_boundary(s, cutoff, k),
    ensures
        forall|j: int| k <= j < s.len() ==> !is_expired(#[trigger] s[j], cutoff),
        s.take(k) == s.filter(|m: Message| is_expired(m, cutoff)),
{
    let pred = |m: Message| is_expired(m, cutoff);
    assert forall|j: int| k <= j < s.len() implies !is_expired(#[trigger] s[j], cutoff) by {
        assert(s[k].timestamp <= s[j].timestamp);
    }
    lemma_take_is_filter(s, pred, k);
}

/// A prefix that holds exactly the elements that satisfy `pred` is the filter by `pred`.
proof fn lemma_take_is_filter(s: Seq<Message>, pred: spec_fn(Message) -> bool, k: int)
    requires
        0 <= k <= s.len(),
        forall|i: int| 0 <= i < k ==> pred(#[trigger] s[i]),
        forall|j: int| k <= j < s.len() ==> !pred(#[trigger] s[j]),
    ensures
        s.take(k) == s.filter(pred),
    decreases s.len(),
{
    reveal_with_fuel(Seq::filter, 1);
    if s.len() == 0 {
        assert(s.take(k) =~= s.filter(pred));
    } else {
        let rest = s.drop_last();
        if k == s.len() {
            lemma_take_is_filter(rest, pred, k - 1);
            assert(rest.take(k - 1) =~= rest);
            assert(s.take(k) =~= s);
            assert(pred(s[s.len() - 1]));
            assert(s.filter(pred) == rest.filter(pred).push(s.last()));
            assert(s =~= rest.push(s.last()));
        } else {
            assert(!pred(s[s.len() - 1]));
            lemma_take_is_filter(rest, pred, k);
            assert(rest.take(k) =~= s.take(k));
        }
    }
}

/// An id is marked exactly when some message that is not pinned carries it.
pub proof fn lemma_unpinned_ids_members(s: Seq<Message>)
    ensures
        forall|x: u64|
            unpinned_ids(s).contains(x) <==> exists|i: int|
                0 <= i < s.len() && (#[trigger] s[i]).id == x && !s[i].pinned,
    decreases s.len(),
{
    if s.len() > 0 {
        let rest = s.drop_last();
        lemma_unpinned_ids_members(rest);
        let r = unpinned_ids(s);
        let p = unpinned_ids(rest);
        assert forall|x: u64|
            r.contains(x) <==> exists|i: int| 0 <= i < s.len() && (#[trigger] s[i]).id == x && !s[i].pinned by {
            if r.contains(x) && !p.contains(x) {
                let j = choose|j: int| 0 <= j < r.len() && r[j] == x;
                assert(j == p.len());
                assert(s[s.len() - 1].id == x);
            }
            if p.contains(x) {
                let i = choose|i: int| 0 <= i < rest.len() && (#[trigger] rest[i]).id == x && !rest[i].pinned;
                assert(s[i] == rest[i]);
                if !s.last().pinned {
                    let j = choose|j: int| 0 <= j < p.len() && p[j] == x;
                    assert(r[j] == x);
                }
            }
            if exists|i: int| 0 <= i < s.len() && (#[trigger] s[i]).id == x && !s[i].pinned {
                let i = choose|i: int| 0 <= i < s.len() && (#[trigger] s[i]).id == x && !s[i].pinned;
                if i < s.len() - 1 {
                    assert(rest[i] == s[i]);
                    assert(p.contains(x));
                    if !s.last().pinned {
                        let j = choose|j: int| 0 <= j < p.len() && p[j] == x;
                        assert(r[j] == x);
                    }
                } else {
                    assert(r[r.len() - 1] == x);
                }
            }
        }
    }
}

/// Two sequences that hold the same messages but for which of them are pinned.
pub open spec fn same_but_pins(a: Seq<Message>, b: Seq<Message>) -> bool {
    &&& a.len() == b.len()
    &&& forall|i: int|
        0 <= i < a.len() ==> (#[trigger] a[i]).id == b[i].id && a[i].timestamp == b[i].timestamp
}

/// Pinning does not move where the expired prefix ends, and a pinned message
/// of the prefix is never marked: an id is marked exactly when an unpinned
/// message of the prefix carries it.
pub proof fn lemma_pins_keep_boundary(a: Seq<Message>, b: Seq<Message>, cutoff: i64, k: int)
    requires
        same_but_pins(a, b),
        expired_boundary(a, cutoff, k),
    ensures
        expired_boundary(b, cutoff, k),
        forall|x: u64|
            unpinned_ids(b.take(k)).contains(x) <==> exists|i: int|
                0 <= i < k && (#[trigger] b[i]).id == x && !b[i].pinned,
{
    assert forall|i: int| 0 <= i < k implies is_expired(#[trigger] b[i], cutoff) by {
        assert(is_expired(a[i], cutoff));
    }
    if k < b.len() {
        assert(!is_expired(a[k], cutoff));
    }
    lemma_unpinned_ids_members(b.take(k));
    assert forall|x: u64|
        unpinned_ids(b.take(k)).contains(x) <==> exists|i: int|
            0 <= i < k && (#[trigger] b[i]).id == x && !b[i].pinned by {
        if exists|i: int| 0 <= i < k && (#[trigger] b[i]).id == x && !b[i].pinned {
            let i = choose|i: int| 0 <= i < k && (#[trigger] b[i]).id == x && !b[i].pinned;
            assert(b.take(k)[i] == b[i]);
        }
        if unpinned_ids(b.take(k)).contains(x) {
            let i = choose|i: int|
                0 <= i < b.take(k).len() && (#[trigger] b.take(k)[i]).id == x && !b.take(k)[i].pinned;
            assert(b.take(k)[i] == b[i]);
        }
    }
}

/// Relies on `slice::sort_by_key`: a stable sort, here keyed by the timestamp.
/// The result is ordered oldest first, holds the same messages, and keeps the
/// order of the messages that share a timestamp.
#[verifier::external_body]
pub(crate) fn sort_by_timestamp(page: &mut Vec<Message>)
    ensures
        final(page)@.len() == old(page)@.len(),
        final(page)@.to_multiset() == old(page)@.to_multiset(),
        sorted_by_time(final(page)@),
        forall|t: i64| at_time(final(page)@, t) == at_time(old(page)@, t),
{
    page.sort_by_key(|m| m.timestamp)
}

} // verus!
