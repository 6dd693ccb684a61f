//! Notification state store.
//!
//! One store exists per active subscription. It maps an item identity to the
//! notification currently representing that item in the channel, and a record
//! exists for an identity exactly while such a notification is visible. The
//! reconciler is the only writer while a cycle runs; teardown drains the store
//! when the subscription stops.

use vstd::prelude::*;

use crate::data::ItemMessage;
use crate::kvmap::{
    keys_distinct, lemma_contains, lemma_distinct_push, lemma_distinct_remove,
    lemma_distinct_update, lemma_get, lemma_len, lemma_push, lemma_remove, lemma_update, map_of,
};

verus! {

/// Per-subscription map from item identity to the notification shown for it.
pub struct NotificationStore {
    entries: Vec<(String, ItemMessage)>,
}

impl NotificationStore {
    /// The map this store represents.
    pub closed spec fn view(&self) -> Map<Seq<char>, ItemMessage> {
        map_of(self.entries@)
    }

    /// Internal shape: no item identity appears twice.
    pub closed spec fn wf(&self) -> bool {
        keys_distinct(self.entries@)
    }

    /// An empty store: no notification is visible.
    pub fn new() -> (s: Self)
        ensures
            s.wf(),
            s@ == Map::<Seq<char>, ItemMessage>::empty(),
    {
        NotificationStore { entries: Vec::new() }
    }

    /// Index of the entry for `id`, if one exists.
    fn find(&self, id: &String) -> (r: Option<usize>)
        requires
            self.wf(),
        ensures
            match r {
                Some(i) => i < self.entries@.len() && self.entries@[i as int].0@ == id@,
                None => forall|j: int| 0 <= j < self.entries@.len()
                    ==> self.entries@[j].0@ !== id@,
            },
    {
        let n = self.entries.len();
        let mut i: usize = 0;
        while i < n
            invariant
                n == self.entries@.len(),
                i <= n,
                forall|j: int| 0 <= j < i ==> self.entries@[j].0@ !== id@,
            decreases n - i,
        {
            if self.entries[i].0 == *id {
                return Some(i);
            }
            i += 1;
        }
        None
    }

    /// The record for `id`, if a notification for it is visible.
    pub fn get(&self, id: &String) -> (r: Option<ItemMessage>)
        requires
            self.wf(),
        ensures
            r == if self@.dom().contains(id@) {
                Some(self@[id@])
            } else {
                None::<ItemMessage>
            },
    {
        let r = self.find(id);
        proof {
            lemma_contains(self.entries@, id@);
        }
        match r {
            Some(i) => {
                proof {
                    lemma_get(self.entries@, i as int);
                }
                Some(self.entries[i].1)
            },
            None => None,
        }
    }

    /// Record that a notification for `id` now shows `msg`; replaces any
    /// earlier record for the same identity.
    pub fn put(&mut self, id: String, msg: ItemMessage)
        requires
            old(self).wf(),
        ensures
            final(self).wf(),
            final(self)@ == old(self)@.insert(id@, msg),
    {
        let r = self.find(&id);
        match r {
            Some(i) => {
                proof {
                    lemma_distinct_update(self.entries@, i as int, (id, msg));
                    lemma_update(self.entries@, i as int, (id, msg));
                }
                self.entries[i] = (id, msg);
            },
            None => {
                proof {
                    lemma_distinct_push(self.entries@, (id, msg));
                    lemma_push(self.entries@, (id, msg));
                }
                self.entries.push((id, msg));
            },
        }
    }

    /// Erase the record for `id`, if any.
    pub fn remove(&mut self, id: &String)
        requires
            old(self).wf(),
        ensures
            final(self).wf(),
            final(self)@ == old(self)@.remove(id@),
    {
        let r = self.find(id);
        match r {
            Some(i) => {
                proof {
                    lemma_distinct_remove(self.entries@, i as int);
                    lemma_remove(self.entries@, i as int);
                }
                self.entries.remove(i);
            },
            None => {
                proof {
                    lemma_contains(self.entries@, id@);
                    assert(self@ =~= self@.remove(id@));
                }
            },
        }
    }

    /// How many notifications are currently visible.
    pub fn len(&self) -> (n: usize)
        requires
            self.wf(),
        ensures
            n == self@.dom().len(),
    {
        proof {
            lemma_len(self.entries@);
        }
        self.entries.len()
    }

    /// Take every record out, leaving the store empty. The result lists each
    /// formerly visible notification exactly once.
    pub fn drain(&mut self) -> (r: Vec<(String, ItemMessage)>)
        requires
            old(self).wf(),
        ensures
            final(self).wf(),
            final(self)@ == Map::<Seq<char>, ItemMessage>::empty(),
            r@.len() == old(self)@.dom().len(),
            keys_distinct(r@),
            forall|i: int| 0 <= i < r@.len()
                ==> old(self)@.dom().contains(#[trigger] r@[i].0@) && old(self)@[r@[i].0@]
                    == r@[i].1,
            forall|k: Seq<char>| old(self)@.dom().contains(k)
                ==> exists|i: int| 0 <= i < r@.len() && #[trigger] r@[i].0@ == k,
    {
        proof {
            lemma_len(self.entries@);
            assert forall|i: int| 0 <= i < self.entries@.len() implies self@.dom().contains(
                #[trigger] self.entries@[i].0@,
            ) && self@[self.entries@[i].0@] == self.entries@[i].1 by {
                lemma_get(self.entries@, i);
            }
            assert forall|k: Seq<char>| self@.dom().contains(k) implies exists|i: int|
                0 <= i < self.entries@.len() && #[trigger] self.entries@[i].0@ == k by {
                lemma_contains(self.entries@, k);
            }
        }
        let mut drained: Vec<(String, ItemMessage)> = Vec::new();
        core::mem::swap(&mut drained, &mut self.entries);
        drained
    }
}

} // verus!
