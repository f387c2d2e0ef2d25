//! Sampling the live environment: allow-listed variables, the current
//! branch, and the shell dialect.
use vstd::prelude::*;
use crate::detect::{is_listed, present};
use crate::model::Shell;
use crate::strmap::{StrMap, map_of};
use crate::text::{contains, has_infix, owned};

verus! {

/// The names of the environment variables that a snapshot may hold.
pub open spec fn env_allowlist_spec() -> Seq<Seq<char>> {
    seq![
        "PATH"@, "HOME"@, "USER"@, "SHELL"@, "EDITOR"@, "LANG"@, "LC_ALL"@, "GOPATH"@, "GOROOT"@,
        "JAVA_HOME"@, "PYTHONPATH"@, "NODE_PATH"@, "RUST_BACKTRACE"@, "CARGO_HOME"@, "RUSTUP_HOME"@,
    ]
}

/// The names of the environment variables that a snapshot may hold.
pub fn env_allowlist() -> (r: Vec<String>)
    ensures
        r@.map_values(|s: String| s@) == env_allowlist_spec(),
{
    let r = vec![
        owned("PATH"), owned("HOME"), owned("USER"), owned("SHELL"), owned("EDITOR"), owned("LANG"),
        owned("LC_ALL"), owned("GOPATH"), owned("GOROOT"), owned("JAVA_HOME"), owned("PYTHONPATH"),
        owned("NODE_PATH"), owned("RUST_BACKTRACE"), owned("CARGO_HOME"), owned("RUSTUP_HOME"),
    ];
    assert(r@.map_values(|s: String| s@) =~= env_allowlist_spec());
    r
}

/// The variables of `found` whose names are allowed; for a name given twice
/// the later value holds.
pub open spec fn allowed_vars(found: Seq<(String, String)>, allow: Seq<String>) -> Map<Seq<char>, Seq<char>> {
    map_of(found).restrict(Set::new(|k: Seq<char>| present(allow, k)))
}

/// Keeps the variables of `found` whose names appear in `allow` (case
/// sensitive, exact); names that were not set are simply not in `found`.
pub fn sample_env(found: &Vec<(String, String)>, allow: &Vec<String>) -> (r: StrMap)
    ensures
        r.wf(),
        r@ == allowed_vars(found@, allow@),
        forall|k: Seq<char>| r@.contains_key(k) ==> present(allow@, k),
{
    let mut r = StrMap::new();
    let mut i: usize = 0;
    while i < found.len()
        invariant
            r.wf(),
            i <= found@.len(),
            r@ == allowed_vars(found@.subrange(0, i as int), allow@),
        decreases found@.len() - i,
    {
        let ghost before = r@;
        proof {
            let t = found@.subrange(0, i + 1);
            assert(t.drop_last() =~= found@.subrange(0, i as int));
        }
        if is_listed(allow, found[i].0.as_str()) {
            r.insert(found[i].0.clone(), found[i].1.clone());
        }
        proof {
            assert(r@ =~= allowed_vars(found@.subrange(0, i + 1), allow@));
        }
        i = i + 1;
    }
    assert(found@.subrange(0, found@.len() as int) =~= found@);
    r
}

/// What `str::trim` returns for the characters `s`.
pub uninterp spec fn trim_of(s: Seq<char>) -> Seq<char>;

/// Relies on str::trim: it removes leading and trailing whitespace, and what
/// it returns depends on the characters alone.
#[verifier::external_body]
pub(crate) fn trim(s: &str) -> (r: String)
    ensures
        r@ == trim_of(s@),
{
    s.trim().to_string()
}

/// The branch named by a "current branch" query: its output, trimmed, when
/// the query succeeded with readable output; otherwise no branch.
pub fn branch_from_output(success: bool, stdout: &str) -> (r: Option<String>)
    ensures
        success ==> (r matches Some(b) && b@ == trim_of(stdout@)),
        !success ==> r is None,
{
    if success {
        Some(trim(stdout))
    } else {
        None
    }
}

/// The dialect named by the value of `SHELL`, if the variable is set.
pub open spec fn shell_of(v: Seq<char>) -> Shell {
    if has_infix(v, "bash"@) {
        Shell::Bash
    } else if has_infix(v, "zsh"@) {
        Shell::Zsh
    } else if has_infix(v, "fish"@) {
        Shell::Fish
    } else if has_infix(v, "pwsh"@) || has_infix(v, "powershell"@) {
        Shell::PowerShell
    } else {
        Shell::Unknown
    }
}

/// Tells the shell dialect from the value of `SHELL`; none when it is unset.
pub fn detect_shell(shell_var: Option<&str>) -> (r: Option<Shell>)
    ensures
        match shell_var {
            Some(v) => r == Some(shell_of(v@)),
            None => r is None,
        },
{
    match shell_var {
        Some(v) => {
            if contains(v, "bash") {
                Some(Shell::Bash)
            } else if contains(v, "zsh") {
                Some(Shell::Zsh)
            } else if contains(v, "fish") {
                Some(Shell::Fish)
            } else if contains(v, "pwsh") || contains(v, "powershell") {
                Some(Shell::PowerShell)
            } else {
                Some(Shell::Unknown)
            }
        },
        None => None,
    }
}

} // verus!
