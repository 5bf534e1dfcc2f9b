//! Bookkeeping of in-flight background tasks (log follows, event
//! subscriptions, exec sessions), one per key: starting a new one for a key
//! hands back the one it replaces, and stopping is a no-op where nothing runs.

use vstd::prelude::*;
use crate::text::same_text;

verus! {

/// In-flight tasks by key (container id, connection id or exec id), each
/// key at most once. The caller aborts whatever handle comes back.
pub struct TaskRegistry<H> {
    entries: Vec<(String, H)>,
}

/// Whether some entry has key `key`.
pub open spec fn holds_key<H>(entries: Seq<(Seq<char>, H)>, key: Seq<char>) -> bool {
    exists|i: int| 0 <= i < entries.len() && (#[trigger] entries[i]).0 == key
}

/// No two entries share a key.
pub open spec fn distinct_keys<H>(entries: Seq<(Seq<char>, H)>) -> bool {
    forall|i: int, j: int|
        0 <= i < entries.len() && 0 <= j < entries.len() && i != j ==> (#[trigger] entries[i]).0
            != (#[trigger] entries[j]).0
}

impl<H> View for TaskRegistry<H> {
    type V = Seq<(Seq<char>, H)>;

    closed spec fn view(&self) -> Seq<(Seq<char>, H)> {
        self.entries@.map_values(|e: (String, H)| (e.0@, e.1))
    }
}

impl<H> TaskRegistry<H> {
    #[verifier::type_invariant]
    spec fn keys_distinct(self) -> bool {
        distinct_keys(self@)
    }

    /// An empty registry.
    pub fn new() -> (r: Self)
        ensures
            r@ == Seq::<(Seq<char>, H)>::empty(),
            distinct_keys(r@),
    {
        let r = TaskRegistry { entries: Vec::new() };
        assert(r@ =~= Seq::<(Seq<char>, H)>::empty());
        r
    }

    /// The number of tasks in flight.
    pub fn len(&self) -> (r: usize)
        ensures
            r == self@.len(),
    {
        self.entries.len()
    }

    fn position(&self, key: &str) -> (r: Option<usize>)
        ensures
            r matches Some(i) ==> i < self@.len() && self@[i as int].0 == key@,
            r is None ==> !holds_key(self@, key@),
    {
        let mut i: usize = 0;
        while i < self.entries.len()
            invariant
                i <= self.entries.len(),
                forall|k: int| 0 <= k < i ==> (#[trigger] self@[k]).0 != key@,
            decreases self.entries.len() - i,
        {
            if same_text(self.entries[i].0.as_str(), key) {
                return Some(i);
            }
            i = i + 1;
        }
        None
    }

    /// Whether a task runs under `key`.
    pub fn contains(&self, key: &str) -> (r: bool)
        ensures
            r == holds_key(self@, key@),
    {
        self.position(key).is_some()
    }

    /// The task running under `key`, if any.
    pub fn get(&self, key: &str) -> (r: Option<&H>)
        ensures
            !holds_key(self@, key@) ==> r is None,
            holds_key(self@, key@) ==> exists|i: int|
                0 <= i < self@.len() && (#[trigger] self@[i]).0 == key@ && r == Some(&self@[i].1),
    {
        match self.position(key) {
            Some(i) => Some(&self.entries[i].1),
            None => None,
        }
    }

    /// Takes the task of `key` out of the registry and hands it back;
    /// nothing where no task runs under `key`, which leaves the registry
    /// as it was.
    pub fn remove(&mut self, key: &str) -> (r: Option<H>)
        ensures
            !holds_key(old(self)@, key@) ==> r is None && final(self)@ == old(self)@,
            holds_key(old(self)@, key@) ==> exists|i: int|
                0 <= i < old(self)@.len() && (#[trigger] old(self)@[i]).0 == key@ && r == Some(
                    old(self)@[i].1,
                ) && final(self)@ == old(self)@.remove(i),
            !holds_key(final(self)@, key@),
            distinct_keys(final(self)@),
    {
        proof {
            use_type_invariant(&*self);
        }
        match self.position(key) {
            Some(i) => {
                let ghost before = self@;
                let mut entries: Vec<(String, H)> = Vec::new();
                std::mem::swap(&mut entries, &mut self.entries);
                let e = entries.remove(i);
                proof {
                    lemma_removed_key_is_gone(before, i as int);
                    assert(entries@.map_values(|e: (String, H)| (e.0@, e.1)) =~= before.remove(i as int));
                }
                self.entries = entries;
                Some(e.1)
            },
            None => None,
        }
    }

    /// Registers `handle` under `key`, handing back the task it replaces.
    pub fn insert(&mut self, key: String, handle: H) -> (r: Option<H>)
        ensures
            !holds_key(old(self)@, key@) ==> r is None && final(self)@ == old(self)@.push((key@, handle)),
            holds_key(old(self)@, key@) ==> exists|i: int|
                0 <= i < old(self)@.len() && (#[trigger] old(self)@[i]).0 == key@ && r == Some(
                    old(self)@[i].1,
                ) && final(self)@ == old(self)@.remove(i).push((key@, handle)),
            distinct_keys(final(self)@),
    {
        let previous = self.remove(key.as_str());
        proof {
            use_type_invariant(&*self);
        }
        let ghost before = self@;
        let ghost k = key@;
        let mut entries: Vec<(String, H)> = Vec::new();
        std::mem::swap(&mut entries, &mut self.entries);
        assert(entries@.map_values(|e: (String, H)| (e.0@, e.1)) == before);
        entries.push((key, handle));
        proof {
            assert(entries@.map_values(|e: (String, H)| (e.0@, e.1)) =~= before.push((k, handle)));
            let after = before.push((k, handle));
            assert forall|a: int, b: int|
                0 <= a < after.len() && 0 <= b < after.len() && a != b implies (#[trigger] after[a]).0
                    != (#[trigger] after[b]).0 by {
                if a < before.len() && b < before.len() {
                    assert(after[a] == before[a] && after[b] == before[b]);
                } else if a < before.len() {
                    assert(after[a] == before[a]);
                } else {
                    assert(after[b] == before[b]);
                }
            }
        }
        self.entries = entries;
        previous
    }
}

/// Stopping twice is harmless: in a registry whose keys are distinct, once
/// the entry of a key is removed no entry of that key is left, so removing
/// it again finds nothing.
pub proof fn lemma_removed_key_is_gone<H>(entries: Seq<(Seq<char>, H)>, i: int)
    requires
        distinct_keys(entries),
        0 <= i < entries.len(),
    ensures
        !holds_key(entries.remove(i), entries[i].0),
        distinct_keys(entries.remove(i)),
{
    let after = entries.remove(i);
    let key = entries[i].0;
    if holds_key(after, key) {
        let w = choose|k: int| 0 <= k < after.len() && (#[trigger] after[k]).0 == key;
        if w < i {
            assert(entries[w] == after[w]);
        } else {
            assert(entries[w + 1] == after[w]);
        }
    }
    assert forall|a: int, b: int|
        0 <= a < after.len() && 0 <= b < after.len() && a != b implies (#[trigger] after[a]).0
            != (#[trigger] after[b]).0 by {
        let ea = if a < i { a } else { a + 1 };
        let eb = if b < i { b } else { b + 1 };
        assert(after[a] == entries[ea] && after[b] == entries[eb]);
    }
}

} // verus!
