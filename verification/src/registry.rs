//! Subscription Registry: a bidirectional association between caller-chosen
//! subscription handles and server channel names.
//!
//! The registry holds (handle, channel) entries; its contracts speak of the
//! forward map (handle to channel) and the reverse map (channel to handle).
//! Well-formedness asks that neither a handle nor a channel repeats, which
//! makes the two maps mutual inverses.

use vstd::prelude::*;

use crate::assoc::{
    distinct_keys, lemma_distinct_remove, lemma_map_of_domain, lemma_map_of_index,
    lemma_map_of_push, lemma_map_of_remove, map_of,
};
use crate::json::str_eq;

verus! {

/// The same entries with handle and channel exchanged.
pub open spec fn swapped(s: Seq<(String, String)>) -> Seq<(String, String)> {
    s.map_values(|p: (String, String)| (p.1, p.0))
}

proof fn lemma_swapped_push(s: Seq<(String, String)>, p: (String, String))
    ensures
        swapped(s.push(p)) =~= swapped(s).push((p.1, p.0)),
{
}

proof fn lemma_swapped_remove(s: Seq<(String, String)>, i: int)
    requires
        0 <= i < s.len(),
    ensures
        swapped(s.remove(i)) =~= swapped(s).remove(i),
{
    s.remove_ensures(i);
    swapped(s).remove_ensures(i);
}

/// The handle-to-channel side of the Subscription Registry.
pub struct Registry {
    pub entries: Vec<(String, String)>,
}

impl Registry {
    /// handle -> channel.
    pub open spec fn fwd(self) -> Map<Seq<char>, Seq<char>> {
        map_of(self.entries@)
    }

    /// channel -> handle.
    pub open spec fn rev(self) -> Map<Seq<char>, Seq<char>> {
        map_of(swapped(self.entries@))
    }

    /// No handle and no channel occurs twice.
    pub open spec fn wf(self) -> bool {
        distinct_keys(self.entries@) && distinct_keys(swapped(self.entries@))
    }

    pub fn new() -> (r: Registry)
        ensures
            r.wf(),
            r.fwd() == Map::<Seq<char>, Seq<char>>::empty(),
            r.rev() == Map::<Seq<char>, Seq<char>>::empty(),
    {
        let r = Registry { entries: Vec::new() };
        proof {
            assert(swapped(r.entries@) =~= Seq::empty());
        }
        r
    }

    fn find_by_handle(&self, handle: &str) -> (r: Option<usize>)
        ensures
            match r {
                Some(i) => i < self.entries@.len() && self.entries@[i as int].0@ == handle@,
                None => forall|j: int|
                    0 <= j < self.entries@.len() ==> (#[trigger] self.entries@[j]).0@ != handle@,
            },
    {
        let mut i: usize = 0;
        while i < self.entries.len()
            invariant
                0 <= i <= self.entries@.len(),
                forall|j: int| 0 <= j < i ==> (#[trigger] self.entries@[j]).0@ != handle@,
            decreases self.entries@.len() - i,
        {
            if str_eq(self.entries[i].0.as_str(), handle) {
                return Some(i);
            }
            i += 1;
        }
        None
    }

    fn find_by_channel(&self, channel: &str) -> (r: Option<usize>)
        ensures
            match r {
                Some(i) => i < self.entries@.len() && self.entries@[i as int].1@ == channel@,
                None => forall|j: int|
                    0 <= j < self.entries@.len() ==> (#[trigger] self.entries@[j]).1@ != channel@,
            },
    {
        let mut i: usize = 0;
        while i < self.entries.len()
            invariant
                0 <= i <= self.entries@.len(),
                forall|j: int| 0 <= j < i ==> (#[trigger] self.entries@[j]).1@ != channel@,
            decreases self.entries@.len() - i,
        {
            if str_eq(self.entries[i].1.as_str(), channel) {
                return Some(i);
            }
            i += 1;
        }
        None
    }

    /// The channel recorded for a handle.
    pub fn channel_of(&self, handle: &str) -> (r: Option<String>)
        requires
            self.wf(),
        ensures
            match r {
                Some(c) => self.fwd().contains_key(handle@) && c@ == self.fwd()[handle@],
                None => !self.fwd().contains_key(handle@),
            },
    {
        proof {
            lemma_map_of_domain(self.entries@, handle@);
        }
        match self.find_by_handle(handle) {
            Some(i) => {
                proof {
                    lemma_map_of_index(self.entries@, i as int);
                }
                Some(self.entries[i].1.clone())
            },
            None => None,
        }
    }

    /// The handle that created a channel's subscription.
    pub fn handle_of(&self, channel: &str) -> (r: Option<String>)
        requires
            self.wf(),
        ensures
            match r {
                Some(h) => self.rev().contains_key(channel@) && h@ == self.rev()[channel@],
                None => !self.rev().contains_key(channel@),
            },
    {
        proof {
            lemma_map_of_domain(swapped(self.entries@), channel@);
            assert(forall|j: int|
                0 <= j < self.entries@.len() ==> #[trigger] swapped(self.entries@)[j] == (
                self.entries@[j].1,
                self.entries@[j].0,
            ));
        }
        match self.find_by_channel(channel) {
            Some(i) => {
                proof {
                    lemma_map_of_index(swapped(self.entries@), i as int);
                }
                Some(self.entries[i].0.clone())
            },
            None => None,
        }
    }

    /// Forgets a handle's subscription, returning the channel it was for.
    pub fn remove_handle(&mut self, handle: &str) -> (r: Option<String>)
        requires
            old(self).wf(),
        ensures
            final(self).wf(),
            match r {
                Some(c) => old(self).fwd().contains_key(handle@) && c@ == old(self).fwd()[handle@]
                    && final(self).fwd() == old(self).fwd().remove(handle@) && final(self).rev()
                    == old(self).rev().remove(c@),
                None => !old(self).fwd().contains_key(handle@) && *final(self) == *old(self),
            },
    {
        let ghost e0 = self.entries@;
        proof {
            lemma_map_of_domain(e0, handle@);
        }
        match self.find_by_handle(handle) {
            Some(i) => {
                let c = self.entries[i].1.clone();
                proof {
                    lemma_map_of_index(e0, i as int);
                    lemma_map_of_index(swapped(e0), i as int);
                    lemma_map_of_remove(e0, i as int);
                    lemma_map_of_remove(swapped(e0), i as int);
                    lemma_distinct_remove(e0, i as int);
                    lemma_distinct_remove(swapped(e0), i as int);
                    lemma_swapped_remove(e0, i as int);
                    assert(swapped(e0)[i as int] == (e0[i as int].1, e0[i as int].0));
                }
                self.entries.remove(i);
                Some(c)
            },
            None => None,
        }
    }

    /// Forgets a channel's subscription, returning the handle it was for.
    pub fn remove_channel(&mut self, channel: &str) -> (r: Option<String>)
        requires
            old(self).wf(),
        ensures
            final(self).wf(),
            match r {
                Some(h) => {
                    &&& old(self).rev().contains_key(channel@)
                    &&& h@ == old(self).rev()[channel@]
                    &&& final(self).rev() == old(self).rev().remove(channel@)
                    &&& final(self).fwd() == old(self).fwd().remove(h@)
                },
                None => !old(self).rev().contains_key(channel@) && *final(self) == *old(self),
            },
    {
        let ghost e0 = self.entries@;
        proof {
            lemma_map_of_domain(swapped(e0), channel@);
            assert(forall|j: int|
                0 <= j < e0.len() ==> #[trigger] swapped(e0)[j] == (e0[j].1, e0[j].0));
        }
        match self.find_by_channel(channel) {
            Some(i) => {
                let h = self.entries[i].0.clone();
                proof {
                    lemma_map_of_index(e0, i as int);
                    lemma_map_of_index(swapped(e0), i as int);
                    lemma_map_of_remove(e0, i as int);
                    lemma_map_of_remove(swapped(e0), i as int);
                    lemma_distinct_remove(e0, i as int);
                    lemma_distinct_remove(swapped(e0), i as int);
                    lemma_swapped_remove(e0, i as int);
                }
                self.entries.remove(i);
                Some(h)
            },
            None => None,
        }
    }

    /// Records a subscription, displacing any entry that held the same
    /// handle or the same channel.
    pub fn insert(&mut self, handle: String, channel: String)
        requires
            old(self).wf(),
        ensures
            final(self).wf(),
            final(self).fwd() == (if old(self).rev().contains_key(channel@) {
                old(self).fwd().remove(old(self).rev()[channel@])
            } else {
                old(self).fwd()
            }).insert(handle@, channel@),
            final(self).rev() == (if old(self).fwd().contains_key(handle@) {
                old(self).rev().remove(old(self).fwd()[handle@])
            } else {
                old(self).rev()
            }).insert(channel@, handle@),
    {
        let ghost s0 = *self;
        let ghost hv = handle@;
        let ghost cv = channel@;
        proof {
            lemma_maps_mutual_inverses(s0);
        }
        let _dropped_channel = self.remove_handle(handle.as_str());
        let _dropped_handle = self.remove_channel(channel.as_str());
        let ghost s2 = *self;
        proof {
            assert(!s2.fwd().contains_key(hv));
            assert(!s2.rev().contains_key(cv));
            lemma_map_of_domain(s2.entries@, hv);
            lemma_map_of_domain(swapped(s2.entries@), cv);
            assert(forall|j: int|
                0 <= j < s2.entries@.len() ==> #[trigger] swapped(s2.entries@)[j] == (
                s2.entries@[j].1,
                s2.entries@[j].0,
            ));
        }
        self.entries.push((handle, channel));
        proof {
            let e2 = s2.entries@;
            let ef = self.entries@;
            assert(ef == e2.push((ef.last().0, ef.last().1)));
            assert(ef.last().0@ == hv && ef.last().1@ == cv);
            lemma_map_of_push(e2, ef.last());
            assert(ef =~= e2.push(ef.last()));
            lemma_swapped_push(e2, ef.last());
            lemma_map_of_push(swapped(e2), (ef.last().1, ef.last().0));
            assert(distinct_keys(ef)) by {
                assert(forall|j: int| 0 <= j < e2.len() ==> #[trigger] ef[j] == e2[j]);
                assert(forall|j: int| 0 <= j < e2.len() ==> (#[trigger] e2[j]).0@ != hv);
            }
            assert(distinct_keys(swapped(ef))) by {
                assert(forall|j: int|
                    0 <= j < ef.len() ==> #[trigger] swapped(ef)[j] == (ef[j].1, ef[j].0));
                assert(forall|j: int| 0 <= j < e2.len() ==> #[trigger] ef[j] == e2[j]);
                assert forall|j: int| 0 <= j < e2.len() implies (#[trigger] e2[j]).1@ != cv by {
                    assert(swapped(e2)[j] == (e2[j].1, e2[j].0));
                }
            }
            assert(final(self).fwd() == s2.fwd().insert(hv, cv));
            assert(final(self).rev() == s2.rev().insert(cv, hv));
            assert(final(self).fwd() =~= (if s0.rev().contains_key(cv) {
                s0.fwd().remove(s0.rev()[cv])
            } else {
                s0.fwd()
            }).insert(hv, cv));
            assert(final(self).rev() =~= (if s0.fwd().contains_key(hv) {
                s0.rev().remove(s0.fwd()[hv])
            } else {
                s0.rev()
            }).insert(cv, hv));
        }
    }
}

/// The registry's two maps are mutual inverses: each handle's channel maps
/// back to that handle, and each channel's handle maps back to that channel.
/// Every operation above preserves well-formedness, so this holds after any
/// sequence of them.
pub proof fn lemma_maps_mutual_inverses(r: Registry)
    requires
        r.wf(),
    ensures
        forall|h: Seq<char>|
            #[trigger] r.fwd().contains_key(h) ==> r.rev().contains_key(r.fwd()[h])
                && r.rev()[r.fwd()[h]] == h,
        forall|c: Seq<char>|
            #[trigger] r.rev().contains_key(c) ==> r.fwd().contains_key(r.rev()[c])
                && r.fwd()[r.rev()[c]] == c,
{
    let s = r.entries@;
    assert(forall|j: int| 0 <= j < s.len() ==> #[trigger] swapped(s)[j] == (s[j].1, s[j].0));
    assert forall|h: Seq<char>| #[trigger] r.fwd().contains_key(h) implies r.rev().contains_key(
        r.fwd()[h],
    ) && r.rev()[r.fwd()[h]] == h by {
        lemma_map_of_domain(s, h);
        let i = choose|i: int| 0 <= i < s.len() && (#[trigger] s[i]).0@ == h;
        lemma_map_of_index(s, i);
        lemma_map_of_index(swapped(s), i);
    }
    assert forall|c: Seq<char>| #[trigger] r.rev().contains_key(c) implies r.fwd().contains_key(
        r.rev()[c],
    ) && r.fwd()[r.rev()[c]] == c by {
        lemma_map_of_domain(swapped(s), c);
        let i = choose|i: int| 0 <= i < swapped(s).len() && (#[trigger] swapped(s)[i]).0@ == c;
        lemma_map_of_index(swapped(s), i);
        lemma_map_of_index(s, i);
    }
}

} // verus!
