//! The document store of simple contexts: a map from name to context that
//! the caller reads from and writes back to a file.
use vstd::prelude::*;
use crate::detect::is_listed;
use crate::detect::present;
use crate::strmap::{StrMap, find_key, keys_distinct, lemma_map_at, lemma_map_dom, lemma_map_remove,
    lemma_map_update, map_of};
use crate::text::owned;

verus! {

/// A context as the document store keeps it.
#[derive(Debug)]
pub struct Context {
    pub name: String,
    pub path: String,
    pub env_vars: StrMap,
    pub git_branch: Option<String>,
    pub project_type: Option<String>,
    pub description: Option<String>,
}

/// A context is known to the store by its name.
impl View for Context {
    type V = Seq<char>;

    open spec fn view(&self) -> Seq<char> {
        self.name@
    }
}

/// Contexts by name.
#[derive(Debug)]
pub struct ContextStore {
    pub contexts: Vec<(String, Context)>,
}

impl ContextStore {
    /// Names are distinct and each context is filed under its own name.
    pub open spec fn wf(&self) -> bool {
        &&& keys_distinct(self.contexts@)
        &&& forall|i: int| 0 <= i < self.contexts@.len() ==> #[trigger] self.contexts@[i].0@ == self.contexts@[i].1.name@
    }

    /// The stored names.
    pub open spec fn names(&self) -> Set<Seq<char>> {
        map_of(self.contexts@).dom()
    }

    pub fn new() -> (r: ContextStore)
        ensures
            r.wf(),
            r.names() == Set::<Seq<char>>::empty(),
    {
        ContextStore { contexts: Vec::new() }
    }

    /// Stores `context` under its name, replacing any of that name.
    pub fn add(&mut self, context: Context)
        requires
            old(self).wf(),
        ensures
            final(self).wf(),
            final(self).names() == old(self).names().insert(context.name@),
            forall|i: int| 0 <= i < final(self).contexts@.len() && final(self).contexts@[i].0@ == context.name@
                ==> #[trigger] final(self).contexts@[i].1 == context,
            forall|i: int| 0 <= i < old(self).contexts@.len() && old(self).contexts@[i].0@ != context.name@
                ==> final(self).contexts@.contains(#[trigger] old(self).contexts@[i]),
    {
        let key = context.name.clone();
        match find_key(&self.contexts, key.as_str()) {
            Some(i) => {
                proof {
                    lemma_map_update(self.contexts@, i as int, (key, context));
                    assert(map_of(self.contexts@).insert(key@, context@).dom() =~= self.names().insert(key@));
                }
                let ghost prev = self.contexts@;
                self.contexts.set(i, (key, context));
                proof {
                    assert forall|j: int| 0 <= j < prev.len() && prev[j].0@ != key@ implies self.contexts@.contains(#[trigger] prev[j]) by {
                        assert(self.contexts@[j] == prev[j]);
                    }
                    assert forall|j: int| 0 <= j < self.contexts@.len() && self.contexts@[j].0@ == key@ implies #[trigger] self.contexts@[j].1 == context by {
                        assert(keys_distinct(self.contexts@));
                        if j != i {
                            assert(self.contexts@[i as int].0@ == key@);
                        }
                    }
                }
            },
            None => {
                let ghost prev = self.contexts@;
                proof {
                    lemma_map_dom(self.contexts@, key@);
                    assert(self.contexts@.push((key, context)).drop_last() =~= self.contexts@);
                }
                self.contexts.push((key, context));
                proof {
                    assert forall|j: int| 0 <= j < prev.len() && prev[j].0@ != key@ implies self.contexts@.contains(#[trigger] prev[j]) by {
                        assert(self.contexts@[j] == prev[j]);
                    }
                    assert forall|j: int| 0 <= j < self.contexts@.len() && self.contexts@[j].0@ == key@ implies #[trigger] self.contexts@[j].1 == context by {
                        if j < prev.len() {
                            assert(prev[j].0@ == key@);
                        }
                    }
                }
            },
        }
    }

    /// The context saved under `name`, if any.
    pub fn get(&self, name: &str) -> (r: Option<&Context>)
        requires
            self.wf(),
        ensures
            match r {
                Some(c) => self.names().contains(name@) && c.name@ == name@
                    && exists|i: int| 0 <= i < self.contexts@.len() && #[trigger] self.contexts@[i].1 == *c,
                None => !self.names().contains(name@),
            },
    {
        match find_key(&self.contexts, name) {
            Some(i) => {
                proof {
                    lemma_map_at(self.contexts@, i as int);
                }
                Some(&self.contexts[i].1)
            },
            None => None,
        }
    }

    /// Removes and hands back the context saved under `name`, if any.
    pub fn remove(&mut self, name: &str) -> (r: Option<Context>)
        requires
            old(self).wf(),
        ensures
            final(self).wf(),
            final(self).names() == old(self).names().remove(name@),
            match r {
                Some(c) => old(self).names().contains(name@) && c.name@ == name@
                    && exists|i: int| 0 <= i < old(self).contexts@.len() && #[trigger] old(self).contexts@[i].1 == c,
                None => !old(self).names().contains(name@),
            },
    {
        match find_key(&self.contexts, name) {
            Some(i) => {
                proof {
                    lemma_map_at(self.contexts@, i as int);
                    lemma_map_remove(self.contexts@, i as int);
                    let u = self.contexts@.remove(i as int);
                    assert forall|j: int| 0 <= j < u.len() implies #[trigger] u[j].0@ == u[j].1.name@ by {
                        if j < i {
                            assert(u[j] == self.contexts@[j]);
                        } else {
                            assert(u[j] == self.contexts@[j + 1]);
                        }
                    }
                    assert(map_of(self.contexts@).remove(name@).dom() =~= self.names().remove(name@));
                }
                let ghost prev = self.contexts@;
                let (_, c) = self.contexts.remove(i);
                assert(prev[i as int].1 == c);
                Some(c)
            },
            None => {
                assert(self.names().remove(name@) =~= self.names());
                None
            },
        }
    }

    /// All stored contexts, in the order in which their names were first
    /// added.
    pub fn list(&self) -> (r: Vec<&Context>)
        ensures
            r@.len() == self.contexts@.len(),
            forall|i: int| 0 <= i < r@.len() ==> *#[trigger] r@[i] == self.contexts@[i].1,
    {
        let mut out: Vec<&Context> = Vec::new();
        let mut i: usize = 0;
        while i < self.contexts.len()
            invariant
                i <= self.contexts@.len(),
                out@.len() == i,
                forall|j: int| 0 <= j < i ==> *#[trigger] out@[j] == self.contexts@[j].1,
            decreases self.contexts@.len() - i,
        {
            out.push(&self.contexts[i].1);
            i = i + 1;
        }
        out
    }
}

/// The project type shown for a directory with the present paths `e`.
pub open spec fn simple_type_spec(e: Seq<String>) -> Option<Seq<char>> {
    if present(e, "Cargo.toml"@) {
        Some("Rust"@)
    } else if present(e, "package.json"@) {
        Some("Node.js"@)
    } else if present(e, "requirements.txt"@) || present(e, "pyproject.toml"@) {
        Some("Python"@)
    } else if present(e, "go.mod"@) {
        Some("Go"@)
    } else if present(e, "pom.xml"@) || present(e, "build.gradle"@) {
        Some("Java"@)
    } else {
        None
    }
}

/// Names the project type of a directory from its present paths, for the
/// document store's contexts.
pub fn detect_project_type(e: &Vec<String>) -> (r: Option<String>)
    ensures
        crate::strmap::opt_view(r) == simple_type_spec(e@),
{
    if is_listed(e, "Cargo.toml") {
        Some(owned("Rust"))
    } else if is_listed(e, "package.json") {
        Some(owned("Node.js"))
    } else if is_listed(e, "requirements.txt") || is_listed(e, "pyproject.toml") {
        Some(owned("Python"))
    } else if is_listed(e, "go.mod") {
        Some(owned("Go"))
    } else if is_listed(e, "pom.xml") || is_listed(e, "build.gradle") {
        Some(owned("Java"))
    } else {
        None
    }
}

} // verus!
