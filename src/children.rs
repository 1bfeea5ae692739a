use vstd::prelude::*;
use vstd::seq_lib::lemma_seq_contains_after_push;

verus! {

/// A child container as the platform lists it.
#[derive(Clone, Copy, Debug, PartialEq, Eq, Structural)]
pub struct ChildContainer {
    pub id: u64,
    pub parent_id: Option<u64>,
    pub message_count: u64,
}

/// The ids of the listed children of `parent`, each once, in the order of
/// their first listing.
pub open spec fn children_of(parent: u64, listed: Seq<ChildContainer>) -> Seq<u64>
    decreases listed.len(),
{
    if listed.len() == 0 {
        Seq::empty()
    } else {
        let prev = children_of(parent, listed.drop_last());
        let c = listed.last();
        if c.parent_id == Some(parent) && !prev.contains(c.id) {
            prev.push(c.id)
        } else {
            prev
        }
    }
}

/// The worklist of child containers to sweep under `parent`: the listed
/// containers whose parent it is, without repeats.
pub fn select_children(parent: u64, listed: &Vec<ChildContainer>) -> (r: Vec<u64>)
    ensures
        r@ == children_of(parent, listed@),
        r@.no_duplicates(),
        forall|id: u64|
            r@.contains(id) <==> exists|i: int|
                0 <= i < listed@.len() && (#[trigger] listed@[i]).id == id && listed@[i].parent_id
                    == Some(parent),
{
    let mut r: Vec<u64> = Vec::new();
    let mut i: usize = 0;
    while i < listed.len()
        invariant
            0 <= i <= listed@.len(),
            r@ == children_of(parent, listed@.take(i as int)),
            r@.no_duplicates(),
            forall|id: u64|
                r@.contains(id) <==> exists|j: int|
                    0 <= j < i && (#[trigger] listed@[j]).id == id && listed@[j].parent_id == Some(
                        parent,
                    ),
        decreases listed@.len() - i,
    {
        let c = listed[i];
        proof {
            assert(listed@.take(i + 1).drop_last() =~= listed@.take(i as int));
        }
        let mut known = false;
        let mut j: usize = 0;
        while j < r.len()
            invariant
                0 <= j <= r@.len(),
                known <==> exists|k: int| 0 <= k < j && r@[k] == c.id,
            decreases r@.len() - j,
        {
            if r[j] == c.id {
                known = true;
            }
            j = j + 1;
        }
        assert(known <==> r@.contains(c.id));
        let matches_parent = match c.parent_id {
            Some(p) => p == parent,
            None => false,
        };
        let ghost old_r = r@;
        if matches_parent && !known {
            r.push(c.id);
            proof {
                assert forall|k1: int, k2: int| 0 <= k1 < k2 < r@.len() implies r@[k1]
                    != r@[k2] by {
                    if k2 == r@.len() - 1 {
                        assert(old_r.contains(r@[k1]));
                    }
                }
            }
        }
        proof {
            broadcast use lemma_seq_contains_after_push;

            assert forall|id: u64|
                r@.contains(id) <==> exists|k: int|
                    0 <= k < i + 1 && (#[trigger] listed@[k]).id == id && listed@[k].parent_id
                        == Some(parent) by {
                if r@.contains(id) && !old_r.contains(id) {
                    assert(listed@[i as int].id == id);
                }
                if exists|k: int|
                    0 <= k < i + 1 && (#[trigger] listed@[k]).id == id && listed@[k].parent_id
                        == Some(parent) {
                    let k = choose|k: int|
                        0 <= k < i + 1 && (#[trigger] listed@[k]).id == id && listed@[k].parent_id
                            == Some(parent);
                    if k < i {
                        assert(old_r.contains(id));
                    }
                }
            }
        }
        i = i + 1;
    }
    proof {
        assert(listed@.take(listed@.len() as int) =~= listed@);
    }
    r
}

} // verus!
