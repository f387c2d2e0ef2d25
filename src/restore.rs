//! Shell code that restores a saved context into the caller's shell.
use vstd::prelude::*;
use crate::model::{Context, Shell};
use crate::strmap::StrMap;
use crate::text::{QuoteMode, concat2, escape_powershell, escape_shell, law_posix_quote_reads_back, owned, posix_quoted,
    ps_quoted, sh_read, str_eq};

verus! {

/// `a` joined with the relative path `b` by one separator.
pub open spec fn joined(a: Seq<char>, b: Seq<char>) -> Seq<char> {
    if a.len() > 0 && a.last() == '/' {
        a + b
    } else {
        a + "/"@ + b
    }
}

/// Joins a directory and a relative path with one separator.
pub fn join_path(a: &str, b: &str) -> (r: String)
    ensures
        r@ == joined(a@, b@),
{
    let n = a.unicode_len();
    if n > 0 && a.get_char(n - 1) == '/' {
        concat2(a, b)
    } else {
        let mut r = concat2(a, "/");
        r.append(b);
        r
    }
}

/// What the caller found on disk under a snapshot's working directory.
#[derive(Clone, Copy, Debug, PartialEq, Eq, Structural)]
pub struct RestoreProbe {
    /// `<venv>/bin/activate` exists.
    pub posix_activate: bool,
    /// `<venv>/Scripts/activate` exists.
    pub windows_activate: bool,
    /// `<venv>/bin/activate.fish` exists.
    pub fish_activate: bool,
    /// `<venv>/Scripts/Activate.ps1` exists.
    pub ps_activate: bool,
    /// `node_modules` exists.
    pub node_modules: bool,
    /// The recorded requirements file exists.
    pub requirements: bool,
}

/// The directory of the snapshot's virtual environment.
pub open spec fn venv_dir(c: Context) -> Seq<char> {
    joined(c.working_dir@, c.virtual_env->Some_0@)
}

/// Path of the virtual environment's activation script `script`, for the
/// caller to probe.
pub fn venv_script_path(c: &Context, script: &str) -> (r: Option<String>)
    ensures
        match r {
            Some(p) => c.virtual_env is Some && p@ == joined(venv_dir(*c), script@),
            None => c.virtual_env is None,
        },
{
    match &c.virtual_env {
        Some(v) => {
            let d = join_path(c.working_dir.as_str(), v.as_str());
            Some(join_path(d.as_str(), script))
        },
        None => None,
    }
}

/// Path of the recorded requirements file, for the caller to probe.
pub fn requirements_path(c: &Context) -> (r: Option<String>)
    requires
        c.wf(),
    ensures
        match r {
            Some(p) => c.dependencies@.contains_key("requirements"@)
                && p@ == joined(c.working_dir@, c.dependencies@["requirements"@]),
            None => !c.dependencies@.contains_key("requirements"@),
        },
{
    match c.dependencies.get("requirements") {
        Some(f) => Some(join_path(c.working_dir.as_str(), f.as_str())),
        None => None,
    }
}

/// The lines of a script, as character sequences.
pub open spec fn lines_view(v: Seq<String>) -> Seq<Seq<char>> {
    v.map_values(|s: String| s@)
}

/// One assignment line per environment entry, in entry order.
pub open spec fn env_lines(s: Shell, entries: Seq<(String, String)>) -> Seq<Seq<char>> {
    entries.map_values(|p: (String, String)| env_line(s, p.0@, p.1@))
}

/// The line that sets variable `k` to the literal value `v`.
pub open spec fn env_line(s: Shell, k: Seq<char>, v: Seq<char>) -> Seq<char> {
    match s {
        Shell::Fish => "set -gx "@ + k + " "@ + posix_quoted(v),
        Shell::PowerShell => "$env:"@ + k + " = "@ + ps_quoted(v),
        _ => "export "@ + k + "="@ + posix_quoted(v),
    }
}

/// The line that changes to directory `d`.
pub open spec fn cd_line(s: Shell, d: Seq<char>) -> Seq<char> {
    match s {
        Shell::PowerShell => "Set-Location "@ + ps_quoted(d),
        _ => "cd "@ + posix_quoted(d),
    }
}

/// The line that tries to check out branch `b`, ignoring failure.
pub open spec fn checkout_line(s: Shell, b: Seq<char>) -> Seq<char> {
    match s {
        Shell::Fish => "git checkout "@ + posix_quoted(b) + " 2>/dev/null; or true"@,
        Shell::PowerShell => "git checkout "@ + ps_quoted(b) + " 2>$null; if ($?) { }"@,
        _ => "git checkout "@ + posix_quoted(b) + " 2>/dev/null || true"@,
    }
}

/// The activation line for the first script variant that exists.
pub open spec fn venv_lines(s: Shell, c: Context, f: RestoreProbe) -> Seq<Seq<char>> {
    if c.virtual_env is None {
        Seq::empty()
    } else {
        match s {
            Shell::Fish => if f.fish_activate {
                seq!["source "@ + posix_quoted(joined(venv_dir(c), "bin/activate.fish"@))]
            } else {
                Seq::empty()
            },
            Shell::PowerShell => if f.ps_activate {
                seq!["& "@ + ps_quoted(joined(venv_dir(c), "Scripts/Activate.ps1"@))]
            } else {
                Seq::empty()
            },
            _ => if f.posix_activate {
                seq!["source "@ + posix_quoted(joined(venv_dir(c), "bin/activate"@))]
            } else if f.windows_activate {
                seq!["source "@ + posix_quoted(joined(venv_dir(c), "Scripts/activate"@))]
            } else {
                Seq::empty()
            },
        }
    }
}

/// Install lines, written for POSIX-like shells only.
pub open spec fn install_lines(s: Shell, c: Context, f: RestoreProbe) -> Seq<Seq<char>> {
    if s == Shell::Fish || s == Shell::PowerShell || c.package_manager is None {
        Seq::empty()
    } else {
        let pm = c.package_manager->Some_0@;
        if pm == "npm"@ || pm == "yarn"@ || pm == "pnpm"@ {
            if f.node_modules {
                Seq::empty()
            } else if pm == "yarn"@ {
                seq!["echo 'Installing dependencies...'"@, "yarn install 2>/dev/null || npm install"@]
            } else if pm == "pnpm"@ {
                seq!["echo 'Installing dependencies...'"@, "pnpm install 2>/dev/null || npm install"@]
            } else {
                seq!["echo 'Installing dependencies...'"@, "npm install"@]
            }
        } else if (pm == "pip"@ || pm == "pip3"@) && c.dependencies@.contains_key("requirements"@)
            && f.requirements {
            seq![
                "echo 'Installing Python dependencies...'"@,
                pm + " install -r "@ + posix_quoted(joined(c.working_dir@, c.dependencies@["requirements"@]))
                    + " 2>/dev/null || true"@,
            ]
        } else {
            Seq::empty()
        }
    }
}

/// The whole restoration script, in its fixed order: directory, variables,
/// branch, environment activation, installs, then the user's hook.
pub open spec fn script(s: Shell, c: Context, f: RestoreProbe) -> Seq<Seq<char>> {
    seq![cd_line(s, c.working_dir@)] + env_lines(s, c.env_vars.entries@) + (match c.git_branch {
        Some(b) => seq![checkout_line(s, b@)],
        None => Seq::empty(),
    }) + venv_lines(s, c, f) + install_lines(s, c, f) + (match c.on_switch {
        Some(h) => seq![h@],
        None => Seq::empty(),
    })
}

fn cat3(a: &str, b: &str, c: &str) -> (r: String)
    ensures
        r@ == a@ + b@ + c@,
{
    let mut r = concat2(a, b);
    r.append(c);
    r
}

fn cat4(a: &str, b: &str, c: &str, d: &str) -> (r: String)
    ensures
        r@ == a@ + b@ + c@ + d@,
{
    let mut r = cat3(a, b, c);
    r.append(d);
    r
}

fn quoted(s: Shell, v: &str) -> (r: String)
    ensures
        s == Shell::PowerShell ==> r@ == ps_quoted(v@),
        s != Shell::PowerShell ==> r@ == posix_quoted(v@),
{
    match s {
        Shell::PowerShell => escape_powershell(v),
        _ => escape_shell(v),
    }
}

fn push_env_lines(s: Shell, env: &StrMap, out: &mut Vec<String>)
    ensures
        lines_view(final(out)@) == lines_view(old(out)@) + env_lines(s, env.entries@),
{
    let ghost start = lines_view(out@);
    let mut i: usize = 0;
    while i < env.entries.len()
        invariant
            i <= env.entries@.len(),
            lines_view(out@) == start + env_lines(s, env.entries@.subrange(0, i as int)),
        decreases env.entries@.len() - i,
    {
        let k = env.entries[i].0.as_str();
        let v = quoted(s, env.entries[i].1.as_str());
        let line = match s {
            Shell::Fish => cat4("set -gx ", k, " ", v.as_str()),
            Shell::PowerShell => cat4("$env:", k, " = ", v.as_str()),
            _ => cat4("export ", k, "=", v.as_str()),
        };
        let ghost before = out@;
        out.push(line);
        proof {
            assert(env_lines(s, env.entries@.subrange(0, i + 1)) =~= env_lines(s, env.entries@.subrange(0, i as int)).push(
                env_line(s, env.entries@[i as int].0@, env.entries@[i as int].1@)));
            assert(lines_view(out@) =~= lines_view(before).push(line@));
        }
        i = i + 1;
    }
    assert(env.entries@.subrange(0, env.entries@.len() as int) =~= env.entries@);
}

fn push_venv_lines(s: Shell, c: &Context, f: &RestoreProbe, out: &mut Vec<String>)
    ensures
        lines_view(final(out)@) == lines_view(old(out)@) + venv_lines(s, *c, *f),
{
    let ghost start = lines_view(out@);
    if c.virtual_env.is_some() {
        let (wanted, script, lead) = match s {
            Shell::Fish => (f.fish_activate, "bin/activate.fish", "source "),
            Shell::PowerShell => (f.ps_activate, "Scripts/Activate.ps1", "& "),
            _ => if f.posix_activate {
                (true, "bin/activate", "source ")
            } else {
                (f.windows_activate, "Scripts/activate", "source ")
            },
        };
        if wanted {
            match venv_script_path(c, script) {
                Some(p) => {
                    let q = quoted(s, p.as_str());
                    out.push(concat2(lead, q.as_str()));
                },
                None => {},
            }
        }
    }
    assert(lines_view(out@) =~= start + venv_lines(s, *c, *f));
}

fn push_install_lines(s: Shell, c: &Context, f: &RestoreProbe, out: &mut Vec<String>)
    requires
        c.wf(),
    ensures
        lines_view(final(out)@) == lines_view(old(out)@) + install_lines(s, *c, *f),
{
    let ghost start = lines_view(out@);
    let fish_or_ps = match s {
        Shell::Fish => true,
        Shell::PowerShell => true,
        _ => false,
    };
    if !fish_or_ps {
        match &c.package_manager {
            Some(pm) => {
                let pm = pm.as_str();
                let yarn = str_eq(pm, "yarn");
                let pnpm = str_eq(pm, "pnpm");
                if str_eq(pm, "npm") || yarn || pnpm {
                    if !f.node_modules {
                        out.push(owned("echo 'Installing dependencies...'"));
                        if yarn {
                            out.push(owned("yarn install 2>/dev/null || npm install"));
                        } else if pnpm {
                            out.push(owned("pnpm install 2>/dev/null || npm install"));
                        } else {
                            out.push(owned("npm install"));
                        }
                    }
                } else if str_eq(pm, "pip") || str_eq(pm, "pip3") {
                    match requirements_path(c) {
                        Some(p) => {
                            if f.requirements {
                                out.push(owned("echo 'Installing Python dependencies...'"));
                                let q = escape_shell(p.as_str());
                                out.push(cat4(pm, " install -r ", q.as_str(), " 2>/dev/null || true"));
                            }
                        },
                        None => {},
                    }
                }
            },
            None => {},
        }
    }
    assert(lines_view(out@) =~= start + install_lines(s, *c, *f));
}

/// Writes the statements that restore `c` in shell `s`, given what exists on
/// disk. Bash, Zsh and unknown shells get the POSIX form.
pub fn emit(c: &Context, s: Shell, f: &RestoreProbe) -> (r: Vec<String>)
    requires
        c.wf(),
    ensures
        lines_view(r@) == script(s, *c, *f),
{
    let mut out: Vec<String> = Vec::new();
    let d = quoted(s, c.working_dir.as_str());
    match s {
        Shell::PowerShell => out.push(concat2("Set-Location ", d.as_str())),
        _ => out.push(concat2("cd ", d.as_str())),
    }
    let ghost l1 = lines_view(out@);
    assert(l1 =~= seq![cd_line(s, c.working_dir@)]);
    push_env_lines(s, &c.env_vars, &mut out);
    let ghost l2 = lines_view(out@);
    match &c.git_branch {
        Some(b) => {
            let q = quoted(s, b.as_str());
            let line = match s {
                Shell::Fish => cat3("git checkout ", q.as_str(), " 2>/dev/null; or true"),
                Shell::PowerShell => cat3("git checkout ", q.as_str(), " 2>$null; if ($?) { }"),
                _ => cat3("git checkout ", q.as_str(), " 2>/dev/null || true"),
            };
            out.push(line);
        },
        None => {},
    }
    let ghost l3 = lines_view(out@);
    assert(l3 =~= l2 + (match c.git_branch {
        Some(b) => seq![checkout_line(s, b@)],
        None => Seq::<Seq<char>>::empty(),
    }));
    push_venv_lines(s, c, f, &mut out);
    let ghost l4 = lines_view(out@);
    push_install_lines(s, c, f, &mut out);
    let ghost l5 = lines_view(out@);
    match &c.on_switch {
        Some(h) => out.push(h.clone()),
        None => {},
    }
    assert(lines_view(out@) =~= l5 + (match c.on_switch {
        Some(h) => seq![h@],
        None => Seq::<Seq<char>>::empty(),
    }));
    assert(lines_view(out@) =~= script(s, *c, *f));
    out
}

/// Why a context operation could not be carried out.
#[derive(Debug)]
pub enum ContextError {
    /// No snapshot is saved under this name.
    NotFound(String),
}

/// The script that switches to the snapshot found under `name`, or
/// `NotFound` and no statement at all when there is none.
pub fn switch_lines(found: Option<&Context>, name: &str, s: Shell, f: &RestoreProbe) -> (r: Result<Vec<String>, ContextError>)
    requires
        found matches Some(c) ==> c.wf(),
    ensures
        found is None <==> r is Err,
        r matches Err(ContextError::NotFound(n)) ==> n@ == name@,
        found matches Some(c) ==> (r matches Ok(lines) && lines_view(lines@) == script(s, *c, *f)),
{
    match found {
        Some(c) => Ok(emit(c, s, f)),
        None => Err(ContextError::NotFound(owned(name))),
    }
}

/// The POSIX line that exports `k` ends in a word that a POSIX shell reads
/// back as exactly `v`, whatever quotes, blanks or `$` signs `v` holds.
pub proof fn law_export_assigns_literal(k: Seq<char>, v: Seq<char>)
    ensures
        env_line(Shell::Bash, k, v) == "export "@ + k + "="@ + posix_quoted(v),
        sh_read(posix_quoted(v), QuoteMode::Plain) == Some(v),
{
    law_posix_quote_reads_back(v);
}

} // verus!
