//! The document store of snippets and the cache of error explanations.
use vstd::prelude::*;
use crate::strmap::{StrMap, find_key, keys_distinct, lemma_map_dom, lemma_map_update, map_of};

verus! {

/// A snippet as the document store keeps it.
#[derive(Debug)]
pub struct Snippet {
    pub name: String,
    pub content: String,
    pub description: Option<String>,
    pub tags: Vec<String>,
    pub usage_count: u32,
}

/// A snippet is known to the store by its name.
impl View for Snippet {
    type V = Seq<char>;

    open spec fn view(&self) -> Seq<char> {
        self.name@
    }
}

/// Snippets by name.
#[derive(Debug)]
pub struct SnippetStore {
    pub snippets: Vec<(String, Snippet)>,
}

impl SnippetStore {
    /// Names are distinct.
    pub open spec fn wf(&self) -> bool {
        keys_distinct(self.snippets@)
    }

    /// The stored names.
    pub open spec fn names(&self) -> Set<Seq<char>> {
        map_of(self.snippets@).dom()
    }

    pub fn new() -> (r: SnippetStore)
        ensures
            r.wf(),
            r.names() == Set::<Seq<char>>::empty(),
    {
        SnippetStore { snippets: Vec::new() }
    }

    /// Stores `snippet` under its name, replacing any of that name.
    pub fn add(&mut self, snippet: Snippet)
        requires
            old(self).wf(),
        ensures
            final(self).wf(),
            final(self).names() == old(self).names().insert(snippet.name@),
            forall|i: int| 0 <= i < final(self).snippets@.len() && final(self).snippets@[i].0@ == snippet.name@
                ==> #[trigger] final(self).snippets@[i].1 == snippet,
    {
        let key = snippet.name.clone();
        match find_key(&self.snippets, key.as_str()) {
            Some(i) => {
                proof {
                    lemma_map_update(self.snippets@, i as int, (key, snippet));
                    assert(map_of(self.snippets@).insert(key@, snippet@).dom() =~= self.names().insert(key@));
                }
                self.snippets.set(i, (key, snippet));
                proof {
                    assert forall|j: int| 0 <= j < self.snippets@.len() && self.snippets@[j].0@ == key@ implies #[trigger] self.snippets@[j].1 == snippet by {
                        if j != i {
                            assert(self.snippets@[i as int].0@ == key@);
                        }
                    }
                }
            },
            None => {
                let ghost prev = self.snippets@;
                proof {
                    lemma_map_dom(self.snippets@, key@);
                    assert(self.snippets@.push((key, snippet)).drop_last() =~= self.snippets@);
                }
                self.snippets.push((key, snippet));
                proof {
                    assert forall|j: int| 0 <= j < self.snippets@.len() && self.snippets@[j].0@ == key@ implies #[trigger] self.snippets@[j].1 == snippet by {
                        if j < prev.len() {
                            assert(prev[j].0@ == key@);
                        }
                    }
                }
            },
        }
    }

    /// A mutable reference to the snippet saved under `name`, if any.
    pub fn get_mut(&mut self, name: &str) -> (r: Option<&mut Snippet>)
        requires
            old(self).wf(),
        ensures
            match r {
                Some(s) => exists|i: int| 0 <= i < old(self).snippets@.len() && old(self).snippets@[i].0@ == name@
                    && *s == old(self).snippets@[i].1
                    && final(self).snippets@ == old(self).snippets@.update(i, (old(self).snippets@[i].0, *final(s))),
                None => !old(self).names().contains(name@) && *final(self) == *old(self),
            },
    {
        match find_key(&self.snippets, name) {
            Some(i) => Some(&mut self.snippets[i].1),
            None => None,
        }
    }

    /// All stored snippets, in the order in which their names were first
    /// added.
    pub fn list(&self) -> (r: Vec<&Snippet>)
        ensures
            r@.len() == self.snippets@.len(),
            forall|i: int| 0 <= i < r@.len() ==> *#[trigger] r@[i] == self.snippets@[i].1,
    {
        let mut out: Vec<&Snippet> = Vec::new();
        let mut i: usize = 0;
        while i < self.snippets.len()
            invariant
                i <= self.snippets@.len(),
                out@.len() == i,
                forall|j: int| 0 <= j < i ==> *#[trigger] out@[j] == self.snippets@[j].1,
            decreases self.snippets@.len() - i,
        {
            out.push(&self.snippets[i].1);
            i = i + 1;
        }
        out
    }
}

/// Explanations already given, by error message.
#[derive(Debug)]
pub struct ErrorCache {
    pub errors: StrMap,
}

impl ErrorCache {
    pub fn new() -> (r: ErrorCache)
        ensures
            r.errors.wf(),
            r.errors@ == Map::<Seq<char>, Seq<char>>::empty(),
    {
        ErrorCache { errors: StrMap::new() }
    }

    /// The explanation cached for exactly this message, if any.
    pub fn get(&self, error_msg: &str) -> (r: Option<String>)
        requires
            self.errors.wf(),
        ensures
            match r {
                Some(v) => self.errors@.contains_key(error_msg@) && self.errors@[error_msg@] == v@,
                None => !self.errors@.contains_key(error_msg@),
            },
    {
        match self.errors.get(error_msg) {
            Some(v) => Some(v.clone()),
            None => None,
        }
    }

    /// Caches `explanation` for `error_msg`, replacing any earlier one.
    pub fn insert(&mut self, error_msg: String, explanation: String)
        requires
            old(self).errors.wf(),
        ensures
            final(self).errors.wf(),
            final(self).errors@ == old(self).errors@.insert(error_msg@, explanation@),
    {
        self.errors.insert(error_msg, explanation);
    }
}

} // verus!
