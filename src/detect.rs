//! Project detection from the set of paths that exist in a directory.
//!
//! The caller probes the filesystem; every function here decides from the
//! relative paths it was told exist.
use vstd::prelude::*;
use crate::model::ProjectType;
use crate::strmap::{StrMap, opt_view};
use crate::text::{concat2, owned, str_eq};

verus! {

/// `p` is one of the listed paths.
pub open spec fn present(e: Seq<String>, p: Seq<char>) -> bool {
    exists|i: int| 0 <= i < e.len() && #[trigger] e[i]@ == p
}

/// Whether `p` is one of the listed paths.
pub fn is_listed(e: &Vec<String>, p: &str) -> (r: bool)
    ensures
        r == present(e@, p@),
{
    let mut i: usize = 0;
    while i < e.len()
        invariant
            i <= e@.len(),
            forall|j: int| 0 <= j < i ==> e@[j]@ != p@,
        decreases e@.len() - i,
    {
        if str_eq(e[i].as_str(), p) {
            return true;
        }
        i = i + 1;
    }
    false
}

/// `m` with `name` mapped to itself when that file is present.
pub open spec fn with_file(e: Seq<String>, m: Map<Seq<char>, Seq<char>>, name: Seq<char>) -> Map<Seq<char>, Seq<char>> {
    if present(e, name) {
        m.insert(name, name)
    } else {
        m
    }
}

/// A Python project has at least one of these markers.
pub open spec fn is_python(e: Seq<String>) -> bool {
    present(e, "requirements.txt"@) || present(e, "pyproject.toml"@) || present(e, "setup.py"@)
        || present(e, "Pipfile"@)
}

/// The project type of a directory: the first marker found, in the order
/// Rust, Node, Python, Go, Java.
pub open spec fn detected_type(e: Seq<String>) -> Option<ProjectType> {
    if present(e, "Cargo.toml"@) {
        Some(ProjectType::Rust)
    } else if present(e, "package.json"@) {
        Some(ProjectType::Node)
    } else if is_python(e) {
        Some(ProjectType::Python)
    } else if present(e, "go.mod"@) {
        Some(ProjectType::Go)
    } else if present(e, "pom.xml"@) || present(e, "build.gradle"@) {
        Some(ProjectType::Java)
    } else {
        None
    }
}

/// The dependency manifests recorded for a directory.
pub open spec fn detected_deps(e: Seq<String>) -> Map<Seq<char>, Seq<char>> {
    let none = Map::<Seq<char>, Seq<char>>::empty();
    match detected_type(e) {
        Some(ProjectType::Rust) => with_file(e, none.insert("Cargo.toml"@, "Cargo.toml"@), "Cargo.lock"@),
        Some(ProjectType::Node) => {
            let base = none.insert("package.json"@, "package.json"@);
            let locked = if present(e, "yarn.lock"@) {
                base.insert("yarn.lock"@, "yarn.lock"@)
            } else {
                with_file(e, base, "pnpm-lock.yaml"@)
            };
            with_file(e, locked, "package-lock.json"@)
        },
        Some(ProjectType::Python) => {
            let req = if present(e, "requirements.txt"@) {
                none.insert("requirements"@, "requirements.txt"@)
            } else {
                none
            };
            with_file(e, with_file(e, req, "pyproject.toml"@), "Pipfile"@)
        },
        Some(ProjectType::Go) => with_file(e, none.insert("go.mod"@, "go.mod"@), "go.sum"@),
        Some(ProjectType::Java) => with_file(e, with_file(e, none, "pom.xml"@), "build.gradle"@),
        _ => none,
    }
}

/// The package manager recorded for a directory.
pub open spec fn detected_manager(e: Seq<String>) -> Option<Seq<char>> {
    match detected_type(e) {
        Some(ProjectType::Rust) => Some("cargo"@),
        Some(ProjectType::Node) => if present(e, "yarn.lock"@) {
            Some("yarn"@)
        } else if present(e, "pnpm-lock.yaml"@) {
            Some("pnpm"@)
        } else {
            Some("npm"@)
        },
        Some(ProjectType::Python) => if present(e, "Pipfile"@) {
            Some("pipenv"@)
        } else {
            Some("pip3"@)
        },
        Some(ProjectType::Go) => Some("go"@),
        Some(ProjectType::Java) => if present(e, "build.gradle"@) {
            Some("gradle"@)
        } else {
            Some("maven"@)
        },
        _ => None,
    }
}

fn add_if_present(e: &Vec<String>, m: &mut StrMap, name: &str)
    requires
        old(m).wf(),
    ensures
        final(m).wf(),
        final(m)@ == with_file(e@, old(m)@, name@),
{
    if is_listed(e, name) {
        m.insert(owned(name), owned(name));
    }
}

/// Detects the project type, its dependency manifests and its package
/// manager from the paths present in a directory.
pub fn detect_project(e: &Vec<String>) -> (r: (Option<ProjectType>, StrMap, Option<String>))
    ensures
        r.0 == detected_type(e@),
        r.1.wf(),
        r.1@ == detected_deps(e@),
        opt_view(r.2) == detected_manager(e@),
{
    let mut deps = StrMap::new();
    if is_listed(e, "Cargo.toml") {
        deps.insert(owned("Cargo.toml"), owned("Cargo.toml"));
        add_if_present(e, &mut deps, "Cargo.lock");
        (Some(ProjectType::Rust), deps, Some(owned("cargo")))
    } else if is_listed(e, "package.json") {
        deps.insert(owned("package.json"), owned("package.json"));
        let pm;
        if is_listed(e, "yarn.lock") {
            pm = owned("yarn");
            deps.insert(owned("yarn.lock"), owned("yarn.lock"));
        } else if is_listed(e, "pnpm-lock.yaml") {
            pm = owned("pnpm");
            deps.insert(owned("pnpm-lock.yaml"), owned("pnpm-lock.yaml"));
        } else {
            pm = owned("npm");
        }
        add_if_present(e, &mut deps, "package-lock.json");
        (Some(ProjectType::Node), deps, Some(pm))
    } else if is_listed(e, "requirements.txt") || is_listed(e, "pyproject.toml") || is_listed(e, "setup.py") || is_listed(e, "Pipfile") {
        if is_listed(e, "requirements.txt") {
            deps.insert(owned("requirements"), owned("requirements.txt"));
        }
        add_if_present(e, &mut deps, "pyproject.toml");
        add_if_present(e, &mut deps, "Pipfile");
        let pm = if is_listed(e, "Pipfile") {
            owned("pipenv")
        } else {
            owned("pip3")
        };
        (Some(ProjectType::Python), deps, Some(pm))
    } else if is_listed(e, "go.mod") {
        deps.insert(owned("go.mod"), owned("go.mod"));
        add_if_present(e, &mut deps, "go.sum");
        (Some(ProjectType::Go), deps, Some(owned("go")))
    } else if is_listed(e, "pom.xml") || is_listed(e, "build.gradle") {
        add_if_present(e, &mut deps, "pom.xml");
        add_if_present(e, &mut deps, "build.gradle");
        let pm = if is_listed(e, "build.gradle") {
            owned("gradle")
        } else {
            owned("maven")
        };
        (Some(ProjectType::Java), deps, Some(pm))
    } else {
        (None, deps, None)
    }
}

/// A directory that holds both a Cargo manifest and a Node manifest is a
/// Rust project managed by cargo, never a Node project.
pub proof fn law_rust_marker_wins(e: Seq<String>)
    requires
        present(e, "Cargo.toml"@),
        present(e, "package.json"@),
    ensures
        detected_type(e) == Some(ProjectType::Rust),
        detected_manager(e) == Some("cargo"@),
        detected_deps(e).contains_key("Cargo.toml"@),
        !detected_deps(e).contains_key("package.json"@),
{
    reveal_strlit("Cargo.toml");
    reveal_strlit("Cargo.lock");
    reveal_strlit("package.json");
    assert("package.json"@.len() == 12);
    assert("Cargo.toml"@.len() == 10);
    assert("Cargo.lock"@.len() == 10);
}

/// `d` holds an activation script for at least one OS family.
pub open spec fn venv_here_ok(e: Seq<String>, d: Seq<char>) -> bool {
    present(e, d) && (present(e, d + "/bin/activate"@) || present(e, d + "/Scripts/activate"@)
        || present(e, d + "/Scripts/Activate.ps1"@))
}

/// `d` in the parent directory holds a POSIX or Windows activation script.
pub open spec fn venv_parent_ok(p: Seq<String>, d: Seq<char>) -> bool {
    present(p, d) && (present(p, d + "/bin/activate"@) || present(p, d + "/Scripts/activate"@))
}

/// The isolated environment found for a directory whose present paths are
/// `e` and whose parent's are `p`: the first conventional name that holds an
/// activation script, looked for in the directory before its parent.
pub open spec fn detected_venv(e: Seq<String>, p: Seq<String>) -> Option<Seq<char>> {
    if venv_here_ok(e, "venv"@) {
        Some("venv"@)
    } else if venv_here_ok(e, ".venv"@) {
        Some(".venv"@)
    } else if venv_here_ok(e, "env"@) {
        Some("env"@)
    } else if venv_here_ok(e, ".env"@) {
        Some(".env"@)
    } else if venv_here_ok(e, "virtualenv"@) {
        Some("virtualenv"@)
    } else if present(e, "node_modules/.bin"@) {
        Some("node_modules/.bin"@)
    } else if venv_parent_ok(p, "venv"@) {
        Some("../venv"@)
    } else if venv_parent_ok(p, ".venv"@) {
        Some("../.venv"@)
    } else if venv_parent_ok(p, "env"@) {
        Some("../env"@)
    } else if venv_parent_ok(p, ".env"@) {
        Some("../.env"@)
    } else {
        None
    }
}

fn venv_here(e: &Vec<String>, d: &str) -> (r: bool)
    ensures
        r == venv_here_ok(e@, d@),
{
    is_listed(e, d) && (is_listed(e, concat2(d, "/bin/activate").as_str()) || is_listed(e, concat2(d, "/Scripts/activate").as_str())
        || is_listed(e, concat2(d, "/Scripts/Activate.ps1").as_str()))
}

fn venv_parent(p: &Vec<String>, d: &str) -> (r: bool)
    ensures
        r == venv_parent_ok(p@, d@),
{
    is_listed(p, d) && (is_listed(p, concat2(d, "/bin/activate").as_str()) || is_listed(p, concat2(d, "/Scripts/activate").as_str()))
}

/// Finds the virtual environment of a directory, given the paths present in
/// it (`here`) and in its parent (`parent`, empty where there is none).
pub fn detect_virtual_env(here: &Vec<String>, parent: &Vec<String>) -> (r: Option<String>)
    ensures
        opt_view(r) == detected_venv(here@, parent@),
{
    if venv_here(here, "venv") {
        Some(owned("venv"))
    } else if venv_here(here, ".venv") {
        Some(owned(".venv"))
    } else if venv_here(here, "env") {
        Some(owned("env"))
    } else if venv_here(here, ".env") {
        Some(owned(".env"))
    } else if venv_here(here, "virtualenv") {
        Some(owned("virtualenv"))
    } else if is_listed(here, "node_modules/.bin") {
        Some(owned("node_modules/.bin"))
    } else if venv_parent(parent, "venv") {
        Some(owned("../venv"))
    } else if venv_parent(parent, ".venv") {
        Some(owned("../.venv"))
    } else if venv_parent(parent, "env") {
        Some(owned("../env"))
    } else if venv_parent(parent, ".env") {
        Some(owned("../.env"))
    } else {
        None
    }
}

/// An environment with a POSIX activation script in the directory itself is
/// chosen over one in the parent directory.
pub proof fn law_child_venv_first(e: Seq<String>, p: Seq<String>)
    requires
        present(e, "venv"@),
        present(e, "venv/bin/activate"@),
    ensures
        detected_venv(e, p) == Some("venv"@),
{
    reveal_strlit("venv");
    reveal_strlit("/bin/activate");
    reveal_strlit("venv/bin/activate");
    assert("venv"@ + "/bin/activate"@ =~= "venv/bin/activate"@);
}

/// The names of `s` that are present, in the order of `s`.
pub open spec fn keep_present(e: Seq<String>, s: Seq<Seq<char>>) -> Seq<Seq<char>>
    decreases s.len(),
{
    if s.len() == 0 {
        Seq::empty()
    } else if present(e, s.last()) {
        keep_present(e, s.drop_last()).push(s.last())
    } else {
        keep_present(e, s.drop_last())
    }
}

/// The characters of each string slice, in order.
pub open spec fn slices_view(s: Seq<&str>) -> Seq<Seq<char>> {
    s.map_values(|x: &str| x@)
}

/// The names of `names` that are present in `e`, in the order of `names`.
pub fn filter_present(e: &Vec<String>, names: &[&str]) -> (r: Vec<String>)
    ensures
        r@.map_values(|s: String| s@) == keep_present(e@, slices_view(names@)),
{
    let mut out: Vec<String> = Vec::new();
    let mut i: usize = 0;
    while i < names.len()
        invariant
            i <= names@.len(),
            out@.map_values(|s: String| s@) == keep_present(e@, slices_view(names@.subrange(0, i as int))),
        decreases names@.len() - i,
    {
        let ghost before = out@;
        let n = names[i];
        proof {
            let t = slices_view(names@.subrange(0, i + 1));
            assert(t.drop_last() =~= slices_view(names@.subrange(0, i as int)));
            assert(t.last() == n@);
        }
        if is_listed(e, n) {
            out.push(owned(n));
            assert(out@.map_values(|s: String| s@) =~= before.map_values(|s: String| s@).push(n@));
        }
        i = i + 1;
    }
    assert(names@.subrange(0, names@.len() as int) =~= names@);
    out
}

/// Files worth noting in any project.
pub open spec fn common_files() -> Seq<Seq<char>> {
    seq![".gitignore"@, ".env"@, ".env.local"@, "README.md"@, "LICENSE"@, "Makefile"@, "Dockerfile"@, ".dockerignore"@]
}

/// Files worth noting in a project of type `t`.
pub open spec fn type_files(t: Option<ProjectType>) -> Seq<Seq<char>> {
    match t {
        Some(ProjectType::Rust) => seq!["rustfmt.toml"@, ".rustfmt.toml"@],
        Some(ProjectType::Node) => seq![".nvmrc"@, ".node-version"@],
        Some(ProjectType::Python) => seq![".python-version"@],
        _ => Seq::empty(),
    }
}

/// Directories worth noting in any project.
pub open spec fn common_dirs() -> Seq<Seq<char>> {
    seq!["src"@, "lib"@, "tests"@, "test"@, "docs"@, "doc"@, "config"@, "scripts"@]
}

/// Directories worth noting in a project of type `t`.
pub open spec fn type_dirs(t: Option<ProjectType>) -> Seq<Seq<char>> {
    match t {
        Some(ProjectType::Rust) => seq!["examples"@, "benches"@],
        Some(ProjectType::Node) => seq!["public"@, "components"@],
        Some(ProjectType::Python) => seq!["app"@],
        _ => Seq::empty(),
    }
}

/// The notable files that exist: the common ones first, then those of the
/// project type, each group in its fixed order.
pub fn find_important_files(e: &Vec<String>, t: Option<ProjectType>) -> (r: Vec<String>)
    ensures
        r@.map_values(|s: String| s@) == keep_present(e@, common_files()) + keep_present(e@, type_files(t)),
{
    let common: [&str; 8] = [".gitignore", ".env", ".env.local", "README.md", "LICENSE", "Makefile", "Dockerfile", ".dockerignore"];
    assert(slices_view(common@) =~= common_files());
    let mut out = filter_present(e, &common);
    let mut extra: Vec<String> = match t {
        Some(ProjectType::Rust) => {
            let names: [&str; 2] = ["rustfmt.toml", ".rustfmt.toml"];
            assert(slices_view(names@) =~= type_files(t));
            filter_present(e, &names)
        },
        Some(ProjectType::Node) => {
            let names: [&str; 2] = [".nvmrc", ".node-version"];
            assert(slices_view(names@) =~= type_files(t));
            filter_present(e, &names)
        },
        Some(ProjectType::Python) => {
            let names: [&str; 1] = [".python-version"];
            assert(slices_view(names@) =~= type_files(t));
            filter_present(e, &names)
        },
        _ => Vec::new(),
    };
    let ghost a = out@;
    let ghost b = extra@;
    out.append(&mut extra);
    assert(out@.map_values(|s: String| s@) =~= a.map_values(|s: String| s@) + b.map_values(|s: String| s@));
    out
}

/// The notable directories that exist (`d` lists the directories present):
/// the common ones first, then those of the project type.
pub fn find_important_dirs(d: &Vec<String>, t: Option<ProjectType>) -> (r: Vec<String>)
    ensures
        r@.map_values(|s: String| s@) == keep_present(d@, common_dirs()) + keep_present(d@, type_dirs(t)),
{
    let common: [&str; 8] = ["src", "lib", "tests", "test", "docs", "doc", "config", "scripts"];
    assert(slices_view(common@) =~= common_dirs());
    let mut out = filter_present(d, &common);
    let mut extra: Vec<String> = match t {
        Some(ProjectType::Rust) => {
            let names: [&str; 2] = ["examples", "benches"];
            assert(slices_view(names@) =~= type_dirs(t));
            filter_present(d, &names)
        },
        Some(ProjectType::Node) => {
            let names: [&str; 2] = ["public", "components"];
            assert(slices_view(names@) =~= type_dirs(t));
            filter_present(d, &names)
        },
        Some(ProjectType::Python) => {
            let names: [&str; 1] = ["app"];
            assert(slices_view(names@) =~= type_dirs(t));
            filter_present(d, &names)
        },
        _ => Vec::new(),
    };
    let ghost a = out@;
    let ghost b = extra@;
    out.append(&mut extra);
    assert(out@.map_values(|s: String| s@) =~= a.map_values(|s: String| s@) + b.map_values(|s: String| s@));
    out
}

/// The relative paths that detection consults, for the caller to probe in
/// a directory and in its parent.
pub open spec fn probe_paths() -> Seq<Seq<char>> {
    seq![
        "Cargo.toml"@, "Cargo.lock"@, "package.json"@, "yarn.lock"@, "pnpm-lock.yaml"@, "package-lock.json"@,
        "requirements.txt"@, "pyproject.toml"@, "setup.py"@, "Pipfile"@, "go.mod"@, "go.sum"@, "pom.xml"@,
        "build.gradle"@,
        "venv"@, "venv/bin/activate"@, "venv/Scripts/activate"@, "venv/Scripts/Activate.ps1"@,
        ".venv"@, ".venv/bin/activate"@, ".venv/Scripts/activate"@, ".venv/Scripts/Activate.ps1"@,
        "env"@, "env/bin/activate"@, "env/Scripts/activate"@, "env/Scripts/Activate.ps1"@,
        ".env"@, ".env/bin/activate"@, ".env/Scripts/activate"@, ".env/Scripts/Activate.ps1"@,
        "virtualenv"@, "virtualenv/bin/activate"@, "virtualenv/Scripts/activate"@, "virtualenv/Scripts/Activate.ps1"@,
        "node_modules/.bin"@,
        ".gitignore"@, ".env.local"@, "README.md"@, "LICENSE"@, "Makefile"@, "Dockerfile"@, ".dockerignore"@,
        "rustfmt.toml"@, ".rustfmt.toml"@, ".nvmrc"@, ".node-version"@, ".python-version"@,
        "src"@, "lib"@, "tests"@, "test"@, "docs"@, "doc"@, "config"@, "scripts"@, "examples"@, "benches"@,
        "public"@, "components"@, "app"@,
    ]
}

/// The relative paths that detection consults.
pub fn detector_probes() -> (r: Vec<String>)
    ensures
        r@.map_values(|s: String| s@) == probe_paths(),
{
    let names: [&str; 60] = [
        "Cargo.toml", "Cargo.lock", "package.json", "yarn.lock", "pnpm-lock.yaml", "package-lock.json",
        "requirements.txt", "pyproject.toml", "setup.py", "Pipfile", "go.mod", "go.sum", "pom.xml",
        "build.gradle",
        "venv", "venv/bin/activate", "venv/Scripts/activate", "venv/Scripts/Activate.ps1",
        ".venv", ".venv/bin/activate", ".venv/Scripts/activate", ".venv/Scripts/Activate.ps1",
        "env", "env/bin/activate", "env/Scripts/activate", "env/Scripts/Activate.ps1",
        ".env", ".env/bin/activate", ".env/Scripts/activate", ".env/Scripts/Activate.ps1",
        "virtualenv", "virtualenv/bin/activate", "virtualenv/Scripts/activate", "virtualenv/Scripts/Activate.ps1",
        "node_modules/.bin",
        ".gitignore", ".env.local", "README.md", "LICENSE", "Makefile", "Dockerfile", ".dockerignore",
        "rustfmt.toml", ".rustfmt.toml", ".nvmrc", ".node-version", ".python-version",
        "src", "lib", "tests", "test", "docs", "doc", "config", "scripts", "examples", "benches",
        "public", "components", "app",
    ];
    let mut out: Vec<String> = Vec::new();
    let mut i: usize = 0;
    while i < 60
        invariant
            i <= 60,
            names@.len() == 60,
            out@.len() == i,
            forall|j: int| 0 <= j < i ==> #[trigger] out@[j]@ == names@[j]@,
        decreases 60 - i,
    {
        out.push(owned(names[i]));
        i = i + 1;
    }
    assert(out@.map_values(|s: String| s@) =~= slices_view(names@));
    assert(slices_view(names@) =~= probe_paths());
    out
}

} // verus!
