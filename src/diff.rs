//! Field-by-field comparison of a fresh capture with a saved snapshot.
use vstd::prelude::*;
use crate::model::Context;
use crate::strmap::{StrMap, lemma_map_at, lemma_map_dom, opt_view};
use crate::text::str_eq;

verus! {

/// The entries of `new` that are absent from `old` or hold another value.
pub open spec fn env_changes(old: Map<Seq<char>, Seq<char>>, new: Map<Seq<char>, Seq<char>>) -> Map<Seq<char>, Seq<char>> {
    Map::new(
        |k: Seq<char>| new.contains_key(k) && (!old.contains_key(k) || old[k] != new[k]),
        |k: Seq<char>| new[k],
    )
}

/// The variables of `new` that differ from `old` or are new; variables only
/// in `old` are not reported.
pub fn diff_env(old: &StrMap, new: &StrMap) -> (r: StrMap)
    requires
        old.wf(),
        new.wf(),
    ensures
        r.wf(),
        r@ == env_changes(old@, new@),
{
    let mut r = StrMap::new();
    let mut i: usize = 0;
    while i < new.entries.len()
        invariant
            old.wf(),
            new.wf(),
            r.wf(),
            i <= new.entries@.len(),
            r@ == Map::new(
                |k: Seq<char>| env_changes(old@, new@).contains_key(k)
                    && exists|j: int| 0 <= j < i && #[trigger] new.entries@[j].0@ == k,
                |k: Seq<char>| new@[k],
            ),
        decreases new.entries@.len() - i,
    {
        let k = &new.entries[i].0;
        let v = &new.entries[i].1;
        proof {
            lemma_map_at(new.entries@, i as int);
        }
        let changed = match old.get(k.as_str()) {
            Some(ov) => !str_eq(ov.as_str(), v.as_str()),
            None => true,
        };
        let ghost before = r@;
        if changed {
            r.insert(k.clone(), v.clone());
        }
        proof {
            let target = Map::new(
                |kk: Seq<char>| env_changes(old@, new@).contains_key(kk)
                    && exists|j: int| 0 <= j < i + 1 && #[trigger] new.entries@[j].0@ == kk,
                |kk: Seq<char>| new@[kk],
            );
            assert forall|kk: Seq<char>| #[trigger] r@.contains_key(kk) == target.contains_key(kk) by {
                if kk != k@ && target.contains_key(kk) {
                    let j = choose|j: int| 0 <= j < i + 1 && #[trigger] new.entries@[j].0@ == kk;
                    assert(j != i);
                }
            }
            assert(r@ =~= target);
        }
        i = i + 1;
    }
    proof {
        assert forall|kk: Seq<char>| #[trigger] r@.contains_key(kk) == env_changes(old@, new@).contains_key(kk) by {
            lemma_map_dom(new.entries@, kk);
        }
        assert(r@ =~= env_changes(old@, new@));
    }
    r
}

/// The keys of `s`, in order, that `other` lacks.
pub open spec fn keys_missing_from(s: Seq<Seq<char>>, other: Map<Seq<char>, Seq<char>>) -> Seq<Seq<char>> {
    s.filter(|k: Seq<char>| !other.contains_key(k))
}

/// The keys of `m`, in entry order, that `other` lacks.
pub fn keys_not_in(m: &StrMap, other: &StrMap) -> (r: Vec<String>)
    requires
        other.wf(),
    ensures
        r@.map_values(|s: String| s@) == keys_missing_from(m.key_seq(), other@),
{
    let mut out: Vec<String> = Vec::new();
    let mut i: usize = 0;
    while i < m.entries.len()
        invariant
            other.wf(),
            i <= m.entries@.len(),
            out@.map_values(|s: String| s@) == keys_missing_from(m.key_seq().subrange(0, i as int), other@),
        decreases m.entries@.len() - i,
    {
        let k = &m.entries[i].0;
        let ghost before = out@;
        proof {
            let t = m.key_seq().subrange(0, i + 1);
            assert(t.drop_last() =~= m.key_seq().subrange(0, i as int));
            assert(t.last() == k@);
            assert(t =~= t.drop_last().push(k@));
            t.drop_last().lemma_filter_push(k@, |kk: Seq<char>| !other@.contains_key(kk));
        }
        if !other.contains_key(k.as_str()) {
            out.push(k.clone());
            assert(out@.map_values(|s: String| s@) =~= before.map_values(|s: String| s@).push(k@));
        }
        i = i + 1;
    }
    assert(m.key_seq().subrange(0, m.entries@.len() as int) =~= m.key_seq());
    out
}

/// Whether two optional strings are equal, absence counting as a value.
pub fn opt_eq(a: &Option<String>, b: &Option<String>) -> (r: bool)
    ensures
        r == (opt_view(*a) == opt_view(*b)),
{
    match (a, b) {
        (Some(x), Some(y)) => str_eq(x.as_str(), y.as_str()),
        (None, None) => true,
        _ => false,
    }
}

/// What differs between a fresh capture and a saved snapshot.
#[derive(Debug)]
pub struct ContextDiff {
    pub working_dir_changed: bool,
    pub branch_changed: bool,
    /// Dependency names present now but not in the snapshot.
    pub added_deps: Vec<String>,
    /// Dependency names in the snapshot but absent now.
    pub removed_deps: Vec<String>,
    /// Variables whose value differs from the snapshot's or that are new.
    pub env_changed: usize,
}

/// Compares `current` with `saved` field by field. Neither is changed.
pub fn diff_contexts(current: &Context, saved: &Context) -> (r: ContextDiff)
    requires
        current.wf(),
        saved.wf(),
    ensures
        r.working_dir_changed == (current.working_dir@ != saved.working_dir@),
        r.branch_changed == (opt_view(current.git_branch) != opt_view(saved.git_branch)),
        r.added_deps@.map_values(|s: String| s@) == keys_missing_from(current.dependencies.key_seq(), saved.dependencies@),
        r.removed_deps@.map_values(|s: String| s@) == keys_missing_from(saved.dependencies.key_seq(), current.dependencies@),
        r.env_changed == env_changes(saved.env_vars@, current.env_vars@).dom().len(),
{
    let changes = diff_env(&saved.env_vars, &current.env_vars);
    ContextDiff {
        working_dir_changed: !str_eq(current.working_dir.as_str(), saved.working_dir.as_str()),
        branch_changed: !opt_eq(&current.git_branch, &saved.git_branch),
        added_deps: keys_not_in(&current.dependencies, &saved.dependencies),
        removed_deps: keys_not_in(&saved.dependencies, &current.dependencies),
        env_changed: changes.len(),
    }
}

/// The dependencies reported as added are exactly the names present now and
/// not saved, and those reported as removed exactly the names saved and not
/// present now; each is reported once.
pub proof fn law_dependency_diff(current: StrMap, saved: StrMap)
    requires
        current.wf(),
        saved.wf(),
    ensures
        keys_missing_from(current.key_seq(), saved@).to_set() == current@.dom().difference(saved@.dom()),
        keys_missing_from(saved.key_seq(), current@).to_set() == saved@.dom().difference(current@.dom()),
        keys_missing_from(current.key_seq(), saved@).no_duplicates(),
        keys_missing_from(saved.key_seq(), current@).no_duplicates(),
{
    lemma_missing_keys(current, saved);
    lemma_missing_keys(saved, current);
}

proof fn lemma_missing_keys(a: StrMap, b: StrMap)
    requires
        a.wf(),
    ensures
        keys_missing_from(a.key_seq(), b@).to_set() == a@.dom().difference(b@.dom()),
        keys_missing_from(a.key_seq(), b@).no_duplicates(),
{
    let f = |k: Seq<char>| !b@.contains_key(k);
    let ks = a.key_seq();
    let out = keys_missing_from(ks, b@);
    assert forall|k: Seq<char>| #[trigger] out.to_set().contains(k) == a@.dom().difference(b@.dom()).contains(k) by {
        lemma_map_dom(a.entries@, k);
        if a@.contains_key(k) && !b@.contains_key(k) {
            let j = choose|j: int| 0 <= j < a.entries@.len() && a.entries@[j].0@ == k;
            assert(ks[j] == k);
            broadcast use vstd::seq_lib::group_filter_ensures;
            assert(ks.contains(k));
        }
        if out.contains(k) {
            broadcast use vstd::seq_lib::group_filter_ensures;
            ks.lemma_filter_contains_rev(f, k);
            let m = choose|m: int| 0 <= m < ks.len() && ks[m] == k;
            assert(a.entries@[m].0@ == k);
        }
    }
    assert(out.to_set() =~= a@.dom().difference(b@.dom()));
    assert(ks.no_duplicates()) by {
        assert forall|i: int, j: int| 0 <= i < ks.len() && 0 <= j < ks.len() && i != j implies ks[i] != ks[j] by {
            assert(ks[i] == a.entries@[i].0@);
            assert(ks[j] == a.entries@[j].0@);
        }
    }
    lemma_filter_distinct(ks, f);
}

pub proof fn lemma_filter_distinct(s: Seq<Seq<char>>, f: spec_fn(Seq<char>) -> bool)
    requires
        s.no_duplicates(),
    ensures
        s.filter(f).no_duplicates(),
    decreases s.len(),
{
    broadcast use vstd::seq_lib::group_filter_ensures;
    if s.len() > 0 {
        let t = s.drop_last();
        let x = s.last();
        assert(s =~= t.push(x));
        assert(t.no_duplicates()) by {
            assert forall|i: int, j: int| 0 <= i < t.len() && 0 <= j < t.len() && i != j implies t[i] != t[j] by {
                assert(t[i] == s[i] && t[j] == s[j]);
            }
        }
        lemma_filter_distinct(t, f);
        t.lemma_filter_push(x, f);
        if f(x) {
            let ft = t.filter(f);
            if ft.contains(x) {
                t.lemma_filter_contains_rev(f, x);
                let m = choose|m: int| 0 <= m < t.len() && t[m] == x;
                assert(s[m] == s[s.len() - 1]);
            }
            assert forall|i: int, j: int| 0 <= i < ft.push(x).len() && 0 <= j < ft.push(x).len() && i != j implies ft.push(x)[i] != ft.push(x)[j] by {
                if i < ft.len() && j < ft.len() {
                } else if i < ft.len() {
                    assert(ft[i] != x);
                } else if j < ft.len() {
                    assert(ft[j] != x);
                }
            }
        }
    }
}

/// The number of lines a status listing holds, counted as `str::lines` does:
/// a line starts at the beginning and after each newline that is not the
/// last character.
pub open spec fn line_count(s: Seq<char>) -> nat
    decreases s.len(),
{
    if s.len() == 0 {
        0
    } else if s.len() == 1 {
        1
    } else if s[s.len() - 2] == '\n' {
        line_count(s.drop_last()) + 1
    } else {
        line_count(s.drop_last())
    }
}

/// Counts the lines of `s` as `str::lines` would.
pub fn count_lines(s: &str) -> (r: usize)
    ensures
        r == line_count(s@),
{
    let n = s.unicode_len();
    let mut count: usize = 0;
    let mut i: usize = 0;
    while i < n
        invariant
            n == s@.len(),
            i <= n,
            count == line_count(s@.subrange(0, i as int)),
            count <= i,
        decreases n - i,
    {
        proof {
            let t = s@.subrange(0, i + 1);
            assert(t.drop_last() =~= s@.subrange(0, i as int));
        }
        if i == 0 {
            count = 1;
        } else if s.get_char(i - 1) == '\n' {
            count = count + 1;
        }
        i = i + 1;
    }
    assert(s@.subrange(0, n as int) =~= s@);
    count
}

/// Uncommitted changes reported by a status query: one per line of its
/// output when it succeeded, none otherwise.
pub fn uncommitted_changes(success: bool, stdout: &str) -> (r: usize)
    ensures
        r == (if success { line_count(stdout@) } else { 0 }),
{
    if success {
        count_lines(stdout)
    } else {
        0
    }
}

} // verus!
