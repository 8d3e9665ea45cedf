//! Request Correlator: allocates request ids and tracks pending requests.
//!
//! Ids start at 2; id 1 is reserved for the single implicit connect request
//! a session sends when it starts, and is never allocated here.  A ghost
//! history records every id handed out, so that the monotonicity of ids is a
//! property of the state rather than of one call.

use vstd::prelude::*;

use crate::assoc::{
    distinct_keys, lemma_distinct_remove, lemma_map_of_domain, lemma_map_of_index,
    lemma_map_of_push, lemma_map_of_remove, map_of,
};

verus! {

/// What a pending request will need when its response arrives: a subscribe
/// carries the handle and logical name it was issued for; an unsubscribe
/// needs nothing beyond completion.
pub enum Pending {
    Subscribe { handle: String, logical: String },
    Unsubscribe,
}

pub enum PendingView {
    Subscribe { handle: Seq<char>, logical: Seq<char> },
    Unsubscribe,
}

impl View for Pending {
    type V = PendingView;

    open spec fn view(&self) -> PendingView {
        match self {
            Pending::Subscribe { handle, logical } => PendingView::Subscribe {
                handle: handle@,
                logical: logical@,
            },
            Pending::Unsubscribe => PendingView::Unsubscribe,
        }
    }
}

/// The id counter, the pending-request table, and the ghost history of
/// issued ids.
pub struct Correlator {
    pub next_id: u64,
    pub pending: Vec<(u64, Pending)>,
    pub issued: Ghost<Seq<u64>>,
}

impl Correlator {
    /// The pending-request table as a map from id to request context.
    pub open spec fn table(self) -> Map<u64, PendingView> {
        map_of(self.pending@)
    }

    pub open spec fn wf(self) -> bool {
        &&& 2 <= self.next_id
        &&& distinct_keys(self.pending@)
        &&& forall|j: int|
            0 <= j < self.pending@.len() ==> 2 <= (#[trigger] self.pending@[j]).0 < self.next_id
        &&& forall|t: int|
            0 <= t < self.issued@.len() ==> 2 <= #[trigger] self.issued@[t] < self.next_id
        &&& forall|t1: int, t2: int|
            0 <= t1 < t2 < self.issued@.len() ==> self.issued@[t1] < self.issued@[t2]
    }

    pub fn new() -> (r: Correlator)
        ensures
            r.wf(),
            r.next_id == 2,
            r.table() == Map::<u64, PendingView>::empty(),
            r.issued@ == Seq::<u64>::empty(),
    {
        Correlator { next_id: 2, pending: Vec::new(), issued: Ghost(Seq::empty()) }
    }

    /// Allocates a fresh id for a request and records it as pending.
    pub fn allocate(&mut self, p: Pending) -> (id: u64)
        requires
            old(self).wf(),
            old(self).next_id < u64::MAX,
        ensures
            final(self).wf(),
            id == old(self).next_id,
            2 <= id,
            final(self).next_id == id + 1,
            final(self).table() == old(self).table().insert(id, p@),
            final(self).issued@ == old(self).issued@.push(id),
            !old(self).table().contains_key(id),
    {
        let ghost pv = p@;
        let id = self.next_id;
        proof {
            lemma_map_of_domain(self.pending@, id);
        }
        let ghost e0 = self.pending@;
        self.pending.push((id, p));
        self.next_id = id + 1;
        self.issued = Ghost(self.issued@.push(id));
        proof {
            assert(self.pending@ == e0.push(self.pending@.last()));
            lemma_map_of_push(e0, self.pending@.last());
            assert(distinct_keys(self.pending@)) by {
                assert(forall|j: int| 0 <= j < e0.len() ==> #[trigger] self.pending@[j] == e0[j]);
            }
        }
        id
    }

    /// Removes and returns the pending request for a response's id, if one
    /// is recorded; an unknown id is ignored.
    #[verifier::loop_isolation(false)]
    pub fn resolve(&mut self, id: u64) -> (r: Option<Pending>)
        requires
            old(self).wf(),
        ensures
            final(self).wf(),
            final(self).next_id == old(self).next_id,
            final(self).issued@ == old(self).issued@,
            match r {
                Some(p) => old(self).table().contains_key(id) && p@ == old(self).table()[id]
                    && final(self).table() == old(self).table().remove(id),
                None => !old(self).table().contains_key(id) && final(self).table() == old(
                    self,
                ).table(),
            },
    {
        let ghost e0 = self.pending@;
        proof {
            lemma_map_of_domain(e0, id);
        }
        let mut i: usize = 0;
        while i < self.pending.len()
            invariant
                self.pending@ == e0,
                self.next_id == old(self).next_id,
                self.issued@ == old(self).issued@,
                0 <= i <= self.pending@.len(),
                forall|j: int| 0 <= j < i ==> (#[trigger] self.pending@[j]).0 != id,
            decreases self.pending@.len() - i,
        {
            if self.pending[i].0 == id {
                proof {
                    lemma_map_of_index(e0, i as int);
                    lemma_map_of_remove(e0, i as int);
                    lemma_distinct_remove(e0, i as int);
                    e0.remove_ensures(i as int);
                }
                let (_, p) = self.pending.remove(i);
                proof {
                    assert(forall|j: int|
                        0 <= j < self.pending@.len() ==> 2 <= (#[trigger] self.pending@[j]).0
                            < self.next_id) by {
                        assert(forall|j: int|
                            0 <= j < i ==> #[trigger] e0.remove(i as int)[j] == e0[j]);
                        assert(forall|j: int|
                            i <= j < e0.len() - 1 ==> #[trigger] e0.remove(i as int)[j] == e0[j
                                + 1]);
                    }
                }
                return Some(p);
            }
            i += 1;
        }
        None
    }
}

/// The ids a session has issued are strictly increasing, so none is ever
/// reused, and none of them is 1: that id is reserved for the one implicit
/// connect request.
pub proof fn lemma_issued_ids_strictly_increasing(c: Correlator)
    requires
        c.wf(),
    ensures
        forall|t1: int, t2: int| 0 <= t1 < t2 < c.issued@.len() ==> c.issued@[t1] < c.issued@[t2],
        forall|t: int| 0 <= t < c.issued@.len() ==> #[trigger] c.issued@[t] != 1,
{
}

} // verus!
