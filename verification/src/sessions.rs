//! What a router keeps of its sessions, and sets of call ids.

use crate::protocol::RoutingIdentity;
use vstd::prelude::*;

verus! {

/// A value for each session, under the session's identity.
#[derive(Debug)]
pub struct SessionTable<T> {
    entries: Vec<(RoutingIdentity, T)>,
}

impl<T: View> SessionTable<T> {
    closed spec fn keys(self) -> Seq<Seq<char>> {
        Seq::new(self.entries@.len(), |i: int| self.entries@[i].0@)
    }

    /// No session has two values.
    pub closed spec fn wf(self) -> bool {
        self.keys().no_duplicates()
    }
}

impl<T: View> View for SessionTable<T> {
    type V = Map<Seq<char>, T::V>;

    closed spec fn view(&self) -> Map<Seq<char>, T::V> {
        Map::new(
            |key: Seq<char>| self.keys().contains(key),
            |key: Seq<char>| self.entries@[self.keys().index_of(key)].1@,
        )
    }
}

impl<T: View> SessionTable<T> {
    proof fn lemma_entry(self, i: int)
        requires
            self.wf(),
            0 <= i < self.entries@.len(),
        ensures
            self@.contains_key(self.entries@[i].0@),
            self@[self.entries@[i].0@] == self.entries@[i].1@,
    {
        let key = self.entries@[i].0@;
        assert(self.keys()[i] == key);
        assert(self.keys().contains(key));
        let j = self.keys().index_of(key);
        assert(self.keys()[j] == key);
        assert(i == j);
    }

    proof fn lemma_key(self, key: Seq<char>)
        requires
            self@.contains_key(key),
        ensures
            exists|i: int| 0 <= i < self.entries@.len() && (#[trigger] self.entries@[i]).0@ == key,
    {
        let i = self.keys().index_of(key);
        assert(self.keys().contains(key));
        assert(self.keys()[i] == key);
        assert(self.entries@[i].0@ == key);
    }

    proof fn lemma_len(self)
        requires
            self.wf(),
        ensures
            self@.dom().finite(),
            self@.len() == self.entries@.len(),
    {
        assert(self@.dom() =~= self.keys().to_set());
        self.keys().unique_seq_to_set();
        vstd::seq_lib::seq_to_set_is_finite(self.keys());
    }

    /// A table without sessions.
    pub fn new() -> (table: Self)
        ensures
            table.wf(),
            table@ == Map::<Seq<char>, T::V>::empty(),
    {
        let table = SessionTable { entries: Vec::new() };
        assert(table@ =~= Map::<Seq<char>, T::V>::empty());
        table
    }

    /// How many sessions the table holds.
    pub fn len(&self) -> (n: usize)
        requires
            self.wf(),
        ensures
            n == self@.len(),
    {
        proof {
            self.lemma_len();
        }
        self.entries.len()
    }

    fn find(&self, identity: &RoutingIdentity) -> (found: Option<usize>)
        requires
            self.wf(),
        ensures
            match found {
                Some(i) => i < self.entries@.len() && self.entries@[i as int].0@ == identity@
                    && self@.contains_key(identity@),
                None => !self@.contains_key(identity@),
            },
    {
        let mut i: usize = 0;
        while i < self.entries.len()
            invariant
                self.wf(),
                i <= self.entries.len(),
                forall|j: int| 0 <= j < i ==> (#[trigger] self.entries@[j]).0@ != identity@,
            decreases self.entries.len() - i,
        {
            if self.entries[i].0.key == identity.key {
                proof {
                    self.lemma_entry(i as int);
                }
                return Some(i);
            }
            i += 1;
        }
        proof {
            if self@.contains_key(identity@) {
                self.lemma_key(identity@);
            }
        }
        None
    }

    /// Whether the table holds the session.
    pub fn contains(&self, identity: &RoutingIdentity) -> (found: bool)
        requires
            self.wf(),
        ensures
            found == self@.contains_key(identity@),
    {
        self.find(identity).is_some()
    }

    /// The session's value.
    pub fn get(&self, identity: &RoutingIdentity) -> (value: Option<&T>)
        requires
            self.wf(),
        ensures
            match value {
                Some(inner) => self@.contains_key(identity@) && inner@ == self@[identity@],
                None => !self@.contains_key(identity@),
            },
    {
        match self.find(identity) {
            Some(i) => {
                proof {
                    self.lemma_entry(i as int);
                }
                Some(&self.entries[i].1)
            },
            None => None,
        }
    }

    /// Takes the session, and its value with it, out of the table.
    pub fn remove(&mut self, identity: &RoutingIdentity) -> (value: Option<T>)
        requires
            old(self).wf(),
        ensures
            final(self).wf(),
            final(self)@ == old(self)@.remove(identity@),
            match value {
                Some(inner) => old(self)@.contains_key(identity@) && inner@ == old(self)@[identity@],
                None => !old(self)@.contains_key(identity@),
            },
    {
        match self.find(identity) {
            Some(i) => {
                proof {
                    self.lemma_entry(i as int);
                }
                let (_, value) = self.remove_at(i);
                Some(value)
            },
            None => {
                assert(self@.remove(identity@) =~= self@);
                None
            },
        }
    }

    fn remove_at(&mut self, i: usize) -> (entry: (RoutingIdentity, T))
        requires
            old(self).wf(),
            i < old(self).entries@.len(),
        ensures
            final(self).wf(),
            entry == old(self).entries@[i as int],
            final(self)@ == old(self)@.remove(entry.0@),
    {
        let ghost before = *self;
        let entry = self.entries.remove(i);
        proof {
            let after = *self;
            let at = |j: int| if j < i { j } else { j + 1 };
            assert forall|j: int| 0 <= j < after.entries@.len() implies after.entries@[j]
                == before.entries@[at(j)] by {}
            assert forall|j: int, k: int|
                0 <= j < after.keys().len() && 0 <= k < after.keys().len() && j
                    != k implies after.keys()[j] != after.keys()[k] by {
                assert(before.keys()[at(j)] == after.keys()[j]);
                assert(before.keys()[at(k)] == after.keys()[k]);
            }
            assert(after.wf());
            before.lemma_entry(i as int);
            assert forall|key: Seq<char>| after@.contains_key(key) <==> before@.remove(
                entry.0@,
            ).contains_key(key) by {
                if after@.contains_key(key) {
                    after.lemma_key(key);
                    let j = choose|j: int|
                        0 <= j < after.entries@.len() && (#[trigger] after.entries@[j]).0@ == key;
                    before.lemma_entry(at(j));
                    assert(before.keys()[at(j)] == key);
                    assert(before.keys()[i as int] == entry.0@);
                }
                if before@.remove(entry.0@).contains_key(key) {
                    before.lemma_key(key);
                    let j = choose|j: int|
                        0 <= j < before.entries@.len() && (#[trigger] before.entries@[j]).0@ == key;
                    assert(j != i);
                    let k = if j < i { j } else { j - 1 };
                    assert(after.entries@[k] == before.entries@[j]);
                    after.lemma_entry(k);
                }
            }
            assert forall|key: Seq<char>| #[trigger] after@.contains_key(key) implies after@[key]
                == before@[key] by {
                after.lemma_key(key);
                let j = choose|j: int|
                    0 <= j < after.entries@.len() && (#[trigger] after.entries@[j]).0@ == key;
                after.lemma_entry(j);
                before.lemma_entry(at(j));
            }
            assert(after@ =~= before@.remove(entry.0@));
        }
        entry
    }

    /// Gives the session this value, in place of one that it had.
    pub fn insert(&mut self, identity: RoutingIdentity, value: T)
        requires
            old(self).wf(),
        ensures
            final(self).wf(),
            final(self)@ == old(self)@.insert(identity@, value@),
    {
        let ghost start = self@;
        let _ = self.remove(&identity);
        let ghost before = *self;
        self.entries.push((identity, value));
        proof {
            let after = *self;
            let n = before.entries@.len() as int;
            assert(after.entries@.take(n) =~= before.entries@);
            assert forall|j: int| 0 <= j < n implies after.keys()[j] == before.keys()[j]
                && after.keys()[j] != identity@ by {
                before.lemma_entry(j);
            }
            assert(after.keys()[n] == identity@);
            assert(after.wf());
            assert forall|key: Seq<char>| after@.contains_key(key) <==> start.insert(
                identity@,
                value@,
            ).contains_key(key) by {
                if after@.contains_key(key) {
                    after.lemma_key(key);
                    let j = choose|j: int|
                        0 <= j < after.entries@.len() && (#[trigger] after.entries@[j]).0@ == key;
                    if j < n {
                        before.lemma_entry(j);
                    }
                }
                if start.insert(identity@, value@).contains_key(key) {
                    if key == identity@ {
                        after.lemma_entry(n);
                    } else {
                        assert(before@.contains_key(key));
                        before.lemma_key(key);
                        let j = choose|j: int|
                            0 <= j < before.entries@.len() && (#[trigger] before.entries@[j]).0@
                                == key;
                        assert(after.entries@[j] == before.entries@[j]);
                        after.lemma_entry(j);
                    }
                }
            }
            assert forall|key: Seq<char>| #[trigger] after@.contains_key(key) implies after@[key]
                == start.insert(identity@, value@)[key] by {
                after.lemma_key(key);
                let j = choose|j: int|
                    0 <= j < after.entries@.len() && (#[trigger] after.entries@[j]).0@ == key;
                after.lemma_entry(j);
                if j < n {
                    before.lemma_entry(j);
                }
            }
            assert(after@ =~= start.insert(identity@, value@));
        }
    }

    /// Drops one session, whichever, and says which.
    pub fn evict(&mut self) -> (evicted: RoutingIdentity)
        requires
            old(self).wf(),
            old(self)@.len() > 0,
        ensures
            final(self).wf(),
            old(self)@.contains_key(evicted@),
            final(self)@ == old(self)@.remove(evicted@),
    {
        proof {
            self.lemma_len();
            self.lemma_entry(0);
        }
        let (evicted, _) = self.remove_at(0);
        evicted
    }
}

/// A set of call ids.
#[derive(Debug)]
pub struct IdSet {
    ids: Vec<String>,
}

impl View for IdSet {
    type V = Set<Seq<char>>;

    closed spec fn view(&self) -> Set<Seq<char>> {
        Set::new(|id: Seq<char>| exists|i: int| 0 <= i < self.ids@.len() && #[trigger] self.ids@[i]@ == id)
    }
}

impl IdSet {
    /// A set without ids.
    pub fn new() -> (set: IdSet)
        ensures
            set@ == Set::<Seq<char>>::empty(),
    {
        let set = IdSet { ids: Vec::new() };
        assert(set@ =~= Set::<Seq<char>>::empty());
        set
    }

    /// Whether the id is in the set.
    pub fn contains(&self, id: &str) -> (found: bool)
        ensures
            found == self@.contains(id@),
    {
        let mut i: usize = 0;
        while i < self.ids.len()
            invariant
                i <= self.ids.len(),
                forall|j: int| 0 <= j < i ==> (#[trigger] self.ids@[j])@ != id@,
            decreases self.ids.len() - i,
        {
            if *self.ids[i].as_str() == *id {
                assert(self.ids@[i as int]@ == id@);
                return true;
            }
            i += 1;
        }
        false
    }

    /// Puts the id into the set.
    pub fn insert(&mut self, id: &str)
        ensures
            final(self)@ == old(self)@.insert(id@),
    {
        if !self.contains(id) {
            let ghost before = *self;
            self.ids.push(id.to_string());
            proof {
                let after = *self;
                let n = before.ids@.len() as int;
                assert forall|key: Seq<char>| after@.contains(key) <==> before@.insert(
                    id@,
                ).contains(key) by {
                    if before@.contains(key) {
                        let j = choose|j: int|
                            0 <= j < before.ids@.len() && #[trigger] before.ids@[j]@ == key;
                        assert(after.ids@[j]@ == key);
                    }
                    if key == id@ {
                        assert(after.ids@[n]@ == key);
                    }
                    if after@.contains(key) {
                        let j = choose|j: int|
                            0 <= j < after.ids@.len() && #[trigger] after.ids@[j]@ == key;
                        if j < n {
                            assert(before.ids@[j]@ == key);
                        }
                    }
                }
                assert(after@ =~= before@.insert(id@));
            }
        } else {
            assert(self@.insert(id@) =~= self@);
        }
    }

    /// Whether each of these ids is in the other set.
    pub fn is_subset(&self, other: &IdSet) -> (subset: bool)
        ensures
            subset == self@.subset_of(other@),
    {
        let mut i: usize = 0;
        while i < self.ids.len()
            invariant
                i <= self.ids.len(),
                forall|j: int| 0 <= j < i ==> other@.contains((#[trigger] self.ids@[j])@),
            decreases self.ids.len() - i,
        {
            if !other.contains(self.ids[i].as_str()) {
                assert(self@.contains(self.ids@[i as int]@));
                return false;
            }
            i += 1;
        }
        assert forall|id: Seq<char>| self@.contains(id) implies other@.contains(id) by {
            let j = choose|j: int| 0 <= j < self.ids@.len() && #[trigger] self.ids@[j]@ == id;
        }
        true
    }
}

} // verus!
