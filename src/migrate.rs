//! The additive schema migration of the snapshot table.
use vstd::prelude::*;
use crate::detect::{is_listed, present};
use crate::diff::lemma_filter_distinct;
use crate::model::strs_view;
use crate::text::{concat2, owned};

verus! {

/// The columns added to the snapshot table after its first version, in the
/// order in which they are added.
pub open spec fn later_columns_spec() -> Seq<Seq<char>> {
    seq!["project_type"@, "dependencies"@, "virtual_env"@, "important_files"@, "important_dirs"@, "package_manager"@]
}

/// The later columns that a table with columns `cols` lacks.
pub open spec fn missing_spec(cols: Seq<Seq<char>>) -> Seq<Seq<char>> {
    later_columns_spec().filter(|c: Seq<char>| !cols.contains(c))
}

/// The statement that adds column `c`.
pub open spec fn alter_spec(c: Seq<char>) -> Seq<char> {
    "ALTER TABLE contexts ADD COLUMN "@ + c + " TEXT"@
}

proof fn lemma_present_contains(e: Seq<String>, p: Seq<char>)
    ensures
        present(e, p) == strs_view(e).contains(p),
{
    if present(e, p) {
        let i = choose|i: int| 0 <= i < e.len() && e[i]@ == p;
        assert(strs_view(e)[i] == p);
    }
    if strs_view(e).contains(p) {
        let i = choose|i: int| 0 <= i < strs_view(e).len() && strs_view(e)[i] == p;
        assert(e[i]@ == p);
    }
}

/// The later columns that a table whose columns are `existing` lacks, in
/// the order in which they are added.
pub fn missing_columns(existing: &Vec<String>) -> (r: Vec<String>)
    ensures
        strs_view(r@) == missing_spec(strs_view(existing@)),
{
    let later: [&str; 6] = ["project_type", "dependencies", "virtual_env", "important_files", "important_dirs", "package_manager"];
    let ghost lv = later@.map_values(|x: &str| x@);
    assert(lv =~= later_columns_spec());
    let ghost f = |c: Seq<char>| !strs_view(existing@).contains(c);
    let mut out: Vec<String> = Vec::new();
    let mut i: usize = 0;
    while i < 6
        invariant
            i <= 6,
            lv == later@.map_values(|x: &str| x@),
            lv.len() == 6,
            f == (|c: Seq<char>| !strs_view(existing@).contains(c)),
            strs_view(out@) == lv.subrange(0, i as int).filter(f),
        decreases 6 - i,
    {
        let c = later[i];
        let ghost before = out@;
        proof {
            let t = lv.subrange(0, i + 1);
            assert(t =~= lv.subrange(0, i as int).push(c@));
            lv.subrange(0, i as int).lemma_filter_push(c@, f);
            lemma_present_contains(existing@, c@);
        }
        if !is_listed(existing, c) {
            out.push(owned(c));
            assert(strs_view(out@) =~= strs_view(before).push(c@));
        }
        i = i + 1;
    }
    assert(lv.subrange(0, 6) =~= lv);
    out
}

/// The statement that adds column `c` to the snapshot table.
pub fn alter_statement(c: &str) -> (r: String)
    ensures
        r@ == alter_spec(c@),
{
    let mut r = concat2("ALTER TABLE contexts ADD COLUMN ", c);
    r.append(" TEXT");
    r
}

/// The statements that bring a snapshot table with columns `existing` up to
/// date: one per missing later column, in order; none for an up-to-date
/// table.
pub fn migration_plan(existing: &Vec<String>) -> (r: Vec<String>)
    ensures
        strs_view(r@) == missing_spec(strs_view(existing@)).map_values(|c: Seq<char>| alter_spec(c)),
{
    let cols = missing_columns(existing);
    let mut out: Vec<String> = Vec::new();
    let mut i: usize = 0;
    while i < cols.len()
        invariant
            i <= cols@.len(),
            strs_view(out@) == strs_view(cols@).subrange(0, i as int).map_values(|c: Seq<char>| alter_spec(c)),
        decreases cols@.len() - i,
    {
        let ghost before = out@;
        let st = alter_statement(cols[i].as_str());
        out.push(st);
        assert(strs_view(out@) =~= strs_view(before).push(st@));
        assert(strs_view(cols@).subrange(0, i + 1) =~= strs_view(cols@).subrange(0, i as int).push(cols@[i as int]@));
        assert(strs_view(out@) =~= strs_view(cols@).subrange(0, i + 1).map_values(|c: Seq<char>| alter_spec(c)));
        i = i + 1;
    }
    assert(strs_view(cols@).subrange(0, cols@.len() as int) =~= strs_view(cols@));
    out
}

/// Migrating a table whose columns are `cols` and then planning again finds
/// nothing to add: the second run changes nothing. The table then has each of
/// its old columns and each later column, and no column twice if it had none
/// twice before.
pub proof fn law_migration_idempotent(cols: Seq<Seq<char>>)
    ensures
        missing_spec(cols + missing_spec(cols)) == Seq::<Seq<char>>::empty(),
        (cols + missing_spec(cols)).to_set() == cols.to_set().union(later_columns_spec().to_set()),
        cols.no_duplicates() ==> (cols + missing_spec(cols)).no_duplicates(),
{
    broadcast use vstd::seq_lib::group_filter_ensures;
    let later = later_columns_spec();
    let f = |c: Seq<char>| !cols.contains(c);
    let added = missing_spec(cols);
    let after = cols + added;
    let g = |c: Seq<char>| !after.contains(c);
    assert forall|i: int| 0 <= i < later.len() implies !g(later[i]) by {
        if cols.contains(later[i]) {
            let j = choose|j: int| 0 <= j < cols.len() && cols[j] == later[i];
            assert(after[j] == later[i]);
        } else {
            assert(added.contains(later[i]));
            let j = choose|j: int| 0 <= j < added.len() && added[j] == later[i];
            assert(after[cols.len() + j] == later[i]);
        }
    }
    assert(later.all(|x: Seq<char>| !g(x)));
    later.lemma_all_neg_filter_empty(g);
    assert(missing_spec(after) =~= Seq::<Seq<char>>::empty());
    assert forall|c: Seq<char>| #[trigger] after.to_set().contains(c) == cols.to_set().union(later.to_set()).contains(c) by {
        if after.contains(c) {
            let j = choose|j: int| 0 <= j < after.len() && after[j] == c;
            if j >= cols.len() {
                assert(added[j - cols.len()] == c);
                later.lemma_filter_contains_rev(f, c);
            }
        }
        if cols.contains(c) {
            let j = choose|j: int| 0 <= j < cols.len() && cols[j] == c;
            assert(after[j] == c);
        } else if later.contains(c) {
            let j = choose|j: int| 0 <= j < later.len() && later[j] == c;
            assert(added.contains(later[j]));
            let k = choose|k: int| 0 <= k < added.len() && added[k] == c;
            assert(after[cols.len() + k] == c);
        }
    }
    assert(after.to_set() =~= cols.to_set().union(later.to_set()));
    if cols.no_duplicates() {
        reveal_strlit("project_type");
        reveal_strlit("dependencies");
        reveal_strlit("virtual_env");
        reveal_strlit("important_files");
        reveal_strlit("important_dirs");
        reveal_strlit("package_manager");
        assert(later.no_duplicates()) by {
            assert("project_type"@.len() == 12);
            assert("dependencies"@.len() == 12);
            assert("virtual_env"@.len() == 11);
            assert("important_files"@.len() == 15);
            assert("important_dirs"@.len() == 14);
            assert("package_manager"@.len() == 15);
            assert("project_type"@[0] == 'p');
            assert("dependencies"@[0] == 'd');
            assert("important_files"@[0] == 'i');
            assert("package_manager"@[0] == 'p');
            assert forall|i: int, j: int| 0 <= i < later.len() && 0 <= j < later.len() && i != j implies later[i] != later[j] by {
                if later[i] == later[j] {
                    assert(later[i].len() == later[j].len());
                    assert(later[i][0] == later[j][0]);
                }
            }
        }
        lemma_filter_distinct(later, f);
        assert forall|i: int, j: int| 0 <= i < after.len() && 0 <= j < after.len() && i != j implies after[i] != after[j] by {
            if i >= cols.len() && j < cols.len() {
                assert(added[i - cols.len()] == after[i]);
                assert(added.contains(after[i]));
                assert(!cols.contains(after[i]));
            } else if i < cols.len() && j >= cols.len() {
                assert(added[j - cols.len()] == after[j]);
                assert(added.contains(after[j]));
                assert(!cols.contains(after[j]));
            } else if i >= cols.len() && j >= cols.len() {
                assert(added[i - cols.len()] == after[i]);
                assert(added[j - cols.len()] == after[j]);
            }
        }
    }
}

} // verus!
