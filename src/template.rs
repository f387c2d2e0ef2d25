//! Variables given to a snippet on the command line as `key=value`.
use vstd::prelude::*;
use crate::strmap::StrMap;
use crate::text::{concat2, owned};
use crate::sample::{trim, trim_of};

verus! {

/// `i` is the position of the first `=` in `s`.
pub open spec fn first_eq_at(s: Seq<char>, i: int) -> bool {
    0 <= i < s.len() && s[i] == '=' && forall|j: int| 0 <= j < i ==> s[j] != '='
}

/// `s` holds an `=`.
pub open spec fn has_eq(s: Seq<char>) -> bool {
    exists|i: int| 0 <= i < s.len() && s[i] == '='
}

/// The position of the first `=` in `s`, which holds one.
pub open spec fn eq_pos(s: Seq<char>) -> int {
    choose|i: int| first_eq_at(s, i)
}

/// The variables that the well-formed assignments `v` give, a later one
/// overriding an earlier one of the same name.
pub open spec fn vars_of(v: Seq<String>) -> Map<Seq<char>, Seq<char>>
    decreases v.len(),
{
    if v.len() == 0 {
        Map::empty()
    } else {
        let s = v.last()@;
        vars_of(v.drop_last()).insert(s.subrange(0, eq_pos(s)), s.subrange(eq_pos(s) + 1, s.len() as int))
    }
}

/// The message for an assignment without `=`.
pub open spec fn bad_var_message(s: Seq<char>) -> Seq<char> {
    "Invalid variable format: "@ + s + ". Expected key=value"@
}

/// The position of the first `=` in `s`, if any.
pub fn find_eq(s: &str) -> (r: Option<usize>)
    ensures
        match r {
            Some(i) => first_eq_at(s@, i as int),
            None => !has_eq(s@),
        },
{
    let n = s.unicode_len();
    let mut i: usize = 0;
    while i < n
        invariant
            n == s@.len(),
            i <= n,
            forall|j: int| 0 <= j < i ==> s@[j] != '=',
        decreases n - i,
    {
        if s.get_char(i) == '=' {
            return Some(i);
        }
        i = i + 1;
    }
    None
}

proof fn lemma_first_eq_unique(s: Seq<char>, i: int)
    requires
        first_eq_at(s, i),
    ensures
        eq_pos(s) == i,
{
    let c = eq_pos(s);
    assert(first_eq_at(s, c));
    if c < i {
        assert(s[c] != '=');
    } else if c > i {
        assert(s[i] != '=');
    }
}

/// Reads `key=value` assignments, splitting each at its first `=`; the
/// first assignment without one is reported.
pub fn parse_vars(vars: Vec<String>) -> (r: Result<StrMap, String>)
    ensures
        match r {
            Ok(m) => m.wf() && (forall|k: int| 0 <= k < vars@.len() ==> has_eq(#[trigger] vars@[k]@))
                && m@ == vars_of(vars@),
            Err(e) => exists|k: int| 0 <= k < vars@.len() && !has_eq(#[trigger] vars@[k]@)
                && (forall|j: int| 0 <= j < k ==> has_eq(#[trigger] vars@[j]@))
                && e@ == bad_var_message(vars@[k]@),
        },
{
    let mut m = StrMap::new();
    let mut i: usize = 0;
    while i < vars.len()
        invariant
            m.wf(),
            i <= vars@.len(),
            forall|j: int| 0 <= j < i ==> has_eq(#[trigger] vars@[j]@),
            m@ == vars_of(vars@.subrange(0, i as int)),
        decreases vars@.len() - i,
    {
        let s = vars[i].as_str();
        match find_eq(s) {
            Some(p) => {
                proof {
                    lemma_first_eq_unique(s@, p as int);
                    let t = vars@.subrange(0, i + 1);
                    assert(t.drop_last() =~= vars@.subrange(0, i as int));
                }
                let n = s.unicode_len();
                let key = owned(s.substring_char(0, p));
                let value = owned(s.substring_char(p + 1, n));
                assert(key@ =~= s@.subrange(0, p as int));
                assert(value@ =~= s@.subrange(p + 1, n as int));
                m.insert(key, value);
            },
            None => {
                let mut e = concat2("Invalid variable format: ", s);
                e.append(". Expected key=value");
                return Err(e);
            },
        }
        i = i + 1;
    }
    assert(vars@.subrange(0, vars@.len() as int) =~= vars@);
    Ok(m)
}

/// The fields of `s` between commas, as `str::split(',')` gives them.
pub open spec fn comma_fields(s: Seq<char>) -> Seq<Seq<char>>
    decreases s.len(),
{
    if s.len() == 0 {
        seq![Seq::empty()]
    } else {
        let f = comma_fields(s.drop_last());
        if s.last() == ',' {
            f.push(Seq::empty())
        } else {
            f.update(f.len() - 1, f.last().push(s.last()))
        }
    }
}

/// The tags a comma-separated list gives: each field trimmed, empty ones
/// dropped.
pub open spec fn tags_of(fields: Seq<Seq<char>>) -> Seq<Seq<char>> {
    fields.map_values(|f: Seq<char>| trim_of(f)).filter(|t: Seq<char>| t.len() > 0)
}

proof fn lemma_fields_nonempty(s: Seq<char>)
    ensures
        comma_fields(s).len() >= 1,
    decreases s.len(),
{
    if s.len() > 0 {
        lemma_fields_nonempty(s.drop_last());
    }
}

proof fn lemma_tags_push(a: Seq<Seq<char>>, x: Seq<char>)
    ensures
        tags_of(a.push(x)) == if trim_of(x).len() > 0 { tags_of(a).push(trim_of(x)) } else { tags_of(a) },
{
    let g = |f: Seq<char>| trim_of(f);
    let p = |t: Seq<char>| t.len() > 0;
    assert(a.push(x).map_values(g) =~= a.map_values(g).push(trim_of(x)));
    a.map_values(g).lemma_filter_push(trim_of(x), p);
}

/// Splits a comma-separated tag list, trimming each tag and dropping empty
/// ones.
pub fn parse_tags(s: &str) -> (r: Vec<String>)
    ensures
        r@.map_values(|t: String| t@) == tags_of(comma_fields(s@)),
{
    let n = s.unicode_len();
    let mut out: Vec<String> = Vec::new();
    let mut cur = String::new();
    let mut i: usize = 0;
    proof {
        lemma_fields_nonempty(s@.subrange(0, 0));
        assert(s@.subrange(0, 0) =~= Seq::<char>::empty());
        assert(comma_fields(Seq::<char>::empty()).drop_last() =~= Seq::<Seq<char>>::empty());
        assert(tags_of(Seq::<Seq<char>>::empty()) =~= Seq::<Seq<char>>::empty());
    }
    while i < n
        invariant
            n == s@.len(),
            i <= n,
            comma_fields(s@.subrange(0, i as int)).len() >= 1,
            cur@ == comma_fields(s@.subrange(0, i as int)).last(),
            out@.map_values(|t: String| t@) == tags_of(comma_fields(s@.subrange(0, i as int)).drop_last()),
        decreases n - i,
    {
        let c = s.get_char(i);
        let ghost f = comma_fields(s@.subrange(0, i as int));
        proof {
            let t = s@.subrange(0, i + 1);
            assert(t.drop_last() =~= s@.subrange(0, i as int));
            assert(t.last() == c);
            assert(f =~= f.drop_last().push(f.last()));
            lemma_tags_push(f.drop_last(), f.last());
        }
        if c == ',' {
            let t = trim(cur.as_str());
            if t.unicode_len() > 0 {
                let ghost before = out@;
                out.push(t);
                assert(out@.map_values(|x: String| x@) =~= before.map_values(|x: String| x@).push(trim_of(f.last())));
            }
            cur = String::new();
            proof {
                let f2 = comma_fields(s@.subrange(0, i + 1));
                assert(f2 =~= f.push(Seq::empty()));
                assert(f2.drop_last() =~= f);
            }
        } else {
            cur.append(s.substring_char(i, i + 1));
            proof {
                let f2 = comma_fields(s@.subrange(0, i + 1));
                assert(f2.drop_last() =~= f.drop_last());
                assert(cur@ =~= f.last().push(c));
            }
        }
        i = i + 1;
    }
    assert(s@.subrange(0, n as int) =~= s@);
    let ghost f = comma_fields(s@);
    proof {
        assert(f =~= f.drop_last().push(f.last()));
        lemma_tags_push(f.drop_last(), f.last());
    }
    let t = trim(cur.as_str());
    if t.unicode_len() > 0 {
        let ghost before = out@;
        out.push(t);
        assert(out@.map_values(|x: String| x@) =~= before.map_values(|x: String| x@).push(trim_of(f.last())));
    }
    out
}

} // verus!
