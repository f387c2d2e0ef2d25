//! An in-memory store of snapshots keyed by name, the shape in which a
//! document file holds them.
use vstd::prelude::*;
use crate::model::{Context, ContextView};
use crate::strmap::{find_key, keys_distinct, keys_of, lemma_map_at, lemma_map_dom, lemma_map_len,
    lemma_map_remove, lemma_map_update, map_of};

verus! {

/// Contents after saving `c`: its name now maps to it, whatever was there.
pub open spec fn stored_after_save(m: Map<Seq<char>, ContextView>, c: ContextView) -> Map<Seq<char>, ContextView> {
    m.insert(c.name, c)
}

/// What a lookup of `name` finds.
pub open spec fn lookup(m: Map<Seq<char>, ContextView>, name: Seq<char>) -> Option<ContextView> {
    if m.contains_key(name) {
        Some(m[name])
    } else {
        None
    }
}

/// Snapshots by name, in the order in which their names were first saved.
#[derive(Debug)]
pub struct SnapshotStore {
    pub entries: Vec<(String, Context)>,
}

impl View for SnapshotStore {
    type V = Map<Seq<char>, ContextView>;

    open spec fn view(&self) -> Map<Seq<char>, ContextView> {
        map_of(self.entries@)
    }
}

impl SnapshotStore {
    /// Names are distinct, each entry is filed under its snapshot's name, and
    /// each snapshot is well formed.
    pub open spec fn wf(&self) -> bool {
        &&& keys_distinct(self.entries@)
        &&& forall|i: int| 0 <= i < self.entries@.len() ==> #[trigger] self.entries@[i].0@ == self.entries@[i].1.name@
            && self.entries@[i].1.wf()
    }

    /// The stored names, in order.
    pub open spec fn names(&self) -> Seq<Seq<char>> {
        keys_of(self.entries@)
    }

    pub fn new() -> (r: SnapshotStore)
        ensures
            r.wf(),
            r@ == Map::<Seq<char>, ContextView>::empty(),
    {
        SnapshotStore { entries: Vec::new() }
    }

    /// Stores `c` under its name, replacing any snapshot of that name.
    pub fn save(&mut self, c: Context)
        requires
            old(self).wf(),
            c.wf(),
        ensures
            final(self).wf(),
            final(self)@ == stored_after_save(old(self)@, c@),
    {
        let key = c.name.clone();
        match find_key(&self.entries, key.as_str()) {
            Some(i) => {
                proof {
                    lemma_map_update(self.entries@, i as int, (key, c));
                }
                self.entries.set(i, (key, c));
            },
            None => {
                proof {
                    lemma_map_dom(self.entries@, key@);
                    assert(self.entries@.push((key, c)).drop_last() =~= self.entries@);
                }
                self.entries.push((key, c));
            },
        }
    }

    /// A copy of the snapshot saved under `name`, if there is one.
    pub fn get(&self, name: &str) -> (r: Option<Context>)
        requires
            self.wf(),
        ensures
            match r {
                Some(c) => lookup(self@, name@) == Some(c@) && c.wf(),
                None => lookup(self@, name@) is None,
            },
    {
        match find_key(&self.entries, name) {
            Some(i) => {
                proof {
                    lemma_map_at(self.entries@, i as int);
                }
                Some(self.entries[i].1.copy())
            },
            None => None,
        }
    }

    /// The stored names, in the order in which they were first saved.
    pub fn list(&self) -> (r: Vec<String>)
        requires
            self.wf(),
        ensures
            r@.map_values(|s: String| s@) == self.names(),
            forall|k: Seq<char>| self@.contains_key(k) <==> self.names().contains(k),
    {
        let mut out: Vec<String> = Vec::new();
        let mut i: usize = 0;
        while i < self.entries.len()
            invariant
                i <= self.entries@.len(),
                out@.len() == i,
                forall|j: int| 0 <= j < i ==> #[trigger] out@[j]@ == self.entries@[j].0@,
            decreases self.entries@.len() - i,
        {
            out.push(self.entries[i].0.clone());
            i = i + 1;
        }
        assert(out@.map_values(|s: String| s@) =~= self.names());
        assert forall|k: Seq<char>| self@.contains_key(k) <==> self.names().contains(k) by {
            lemma_map_dom(self.entries@, k);
            if self@.contains_key(k) {
                let j = choose|j: int| 0 <= j < self.entries@.len() && self.entries@[j].0@ == k;
                assert(self.names()[j] == k);
            }
        }
        out
    }

    /// Removes the snapshot saved under `name`; true iff there was one.
    pub fn delete(&mut self, name: &str) -> (r: bool)
        requires
            old(self).wf(),
        ensures
            final(self).wf(),
            r == old(self)@.contains_key(name@),
            final(self)@ == old(self)@.remove(name@),
    {
        match find_key(&self.entries, name) {
            Some(i) => {
                proof {
                    lemma_map_at(self.entries@, i as int);
                    lemma_map_remove(self.entries@, i as int);
                    let u = self.entries@.remove(i as int);
                    assert forall|j: int| 0 <= j < u.len() implies #[trigger] u[j].0@ == u[j].1.name@ && u[j].1.wf() by {
                        if j < i {
                            assert(u[j] == self.entries@[j]);
                        } else {
                            assert(u[j] == self.entries@[j + 1]);
                        }
                    }
                }
                self.entries.remove(i);
                true
            },
            None => {
                assert(self@.remove(name@) =~= self@);
                false
            },
        }
    }

    /// The number of stored snapshots.
    pub fn len(&self) -> (r: usize)
        requires
            self.wf(),
        ensures
            r == self@.dom().len(),
    {
        proof {
            lemma_map_len(self.entries@);
        }
        self.entries.len()
    }
}

/// A snapshot read back by name right after it was saved is the snapshot
/// that was saved.
pub proof fn law_save_then_get(m: Map<Seq<char>, ContextView>, c: ContextView)
    ensures
        lookup(stored_after_save(m, c), c.name) == Some(c),
{
}

/// Saving twice under one name leaves one entry under that name, holding the
/// second snapshot; the store then has exactly the names it had plus that one.
pub proof fn law_overwrite(m: Map<Seq<char>, ContextView>, c1: ContextView, c2: ContextView)
    requires
        c1.name == c2.name,
        m.dom().finite(),
    ensures
        stored_after_save(stored_after_save(m, c1), c2) == stored_after_save(m, c2),
        lookup(stored_after_save(stored_after_save(m, c1), c2), c2.name) == Some(c2),
        stored_after_save(stored_after_save(m, c1), c2).dom() == m.dom().insert(c2.name),
        stored_after_save(stored_after_save(m, c1), c2).dom().len()
            == m.dom().len() + (if m.contains_key(c2.name) { 0int } else { 1int }),
{
    assert(stored_after_save(stored_after_save(m, c1), c2) =~= stored_after_save(m, c2));
    assert(stored_after_save(m, c2).dom() =~= m.dom().insert(c2.name));
}

/// Why a storage backend could not carry out an operation.
#[derive(Debug)]
pub enum StoreError {
    /// The backing file or location could not be created, read or written.
    Unavailable(String),
}

/// A store of snapshots keyed by name. A failed operation leaves the
/// contents as they were; a missing name is an answer, not a failure.
pub trait SnapshotBackend {
    /// The snapshots held, by name.
    spec fn contents(&self) -> Map<Seq<char>, ContextView>;

    /// The backend's own consistency condition.
    spec fn inv(&self) -> bool;

    /// Stores `c` under its name, replacing any snapshot of that name.
    fn save_context(&mut self, c: Context) -> (r: Result<(), StoreError>)
        requires
            old(self).inv(),
            c.wf(),
        ensures
            final(self).inv(),
            r is Ok ==> final(self).contents() == stored_after_save(old(self).contents(), c@),
            r is Err ==> final(self).contents() == old(self).contents();

    /// The snapshot saved under `name`, or `None` when there is none.
    fn get_context(&self, name: &str) -> (r: Result<Option<Context>, StoreError>)
        requires
            self.inv(),
        ensures
            r matches Ok(o) ==> match o {
                Some(c) => lookup(self.contents(), name@) == Some(c@),
                None => lookup(self.contents(), name@) is None,
            };

    /// The stored names, each once.
    fn list_contexts(&self) -> (r: Result<Vec<String>, StoreError>)
        requires
            self.inv(),
        ensures
            r matches Ok(v) ==> v@.map_values(|s: String| s@).to_set() == self.contents().dom()
                && v@.map_values(|s: String| s@).no_duplicates();

    /// Removes the snapshot saved under `name`; true iff there was one.
    fn delete_context(&mut self, name: &str) -> (r: Result<bool, StoreError>)
        requires
            old(self).inv(),
        ensures
            final(self).inv(),
            r matches Ok(b) ==> b == old(self).contents().contains_key(name@)
                && final(self).contents() == old(self).contents().remove(name@),
            r is Err ==> final(self).contents() == old(self).contents();
}

impl SnapshotBackend for SnapshotStore {
    open spec fn contents(&self) -> Map<Seq<char>, ContextView> {
        self@
    }

    open spec fn inv(&self) -> bool {
        self.wf()
    }

    fn save_context(&mut self, c: Context) -> (r: Result<(), StoreError>) {
        self.save(c);
        Ok(())
    }

    fn get_context(&self, name: &str) -> (r: Result<Option<Context>, StoreError>) {
        Ok(self.get(name))
    }

    fn list_contexts(&self) -> (r: Result<Vec<String>, StoreError>) {
        let v = self.list();
        proof {
            lemma_names_distinct(self);
            assert(v@.map_values(|s: String| s@).to_set() =~= self@.dom());
        }
        Ok(v)
    }

    fn delete_context(&mut self, name: &str) -> (r: Result<bool, StoreError>) {
        Ok(self.delete(name))
    }
}

proof fn lemma_names_distinct(s: &SnapshotStore)
    requires
        s.wf(),
    ensures
        s.names().no_duplicates(),
{
    assert forall|i: int, j: int| 0 <= i < s.names().len() && 0 <= j < s.names().len() && i != j implies s.names()[i] != s.names()[j] by {
        assert(s.names()[i] == s.entries@[i].0@);
        assert(s.names()[j] == s.entries@[j].0@);
    }
}

} // verus!
