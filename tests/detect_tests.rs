use devctx::capture::capture_context;
use devctx::detect::{detect_project, detect_virtual_env, find_important_dirs, find_important_files};
use devctx::ctx_file::detect_project_type;
use devctx::model::ProjectType;
use devctx::strmap::StrMap;

fn strings(xs: &[&str]) -> Vec<String> {
    xs.iter().map(|s| s.to_string()).collect()
}

fn dep(m: &StrMap, k: &str) -> Option<String> {
    m.get(k).cloned()
}

#[test]
fn cargo_wins_over_package_json() {
    let (t, deps, pm) = detect_project(&strings(&["package.json", "Cargo.toml", "yarn.lock"]));
    assert_eq!(t, Some(ProjectType::Rust));
    assert_eq!(pm.as_deref(), Some("cargo"));
    assert_eq!(dep(&deps, "Cargo.toml").as_deref(), Some("Cargo.toml"));
    assert!(dep(&deps, "package.json").is_none());
}

#[test]
fn rust_records_lock_file() {
    let (_, deps, _) = detect_project(&strings(&["Cargo.toml", "Cargo.lock"]));
    assert_eq!(deps.len(), 2);
    assert_eq!(dep(&deps, "Cargo.lock").as_deref(), Some("Cargo.lock"));
}

#[test]
fn node_package_managers() {
    let (t, deps, pm) = detect_project(&strings(&["package.json", "yarn.lock", "pnpm-lock.yaml"]));
    assert_eq!(t, Some(ProjectType::Node));
    assert_eq!(pm.as_deref(), Some("yarn"));
    assert!(dep(&deps, "pnpm-lock.yaml").is_none());
    let (_, deps, pm) = detect_project(&strings(&["package.json", "pnpm-lock.yaml", "package-lock.json"]));
    assert_eq!(pm.as_deref(), Some("pnpm"));
    assert_eq!(deps.len(), 3);
    let (_, deps, pm) = detect_project(&strings(&["package.json"]));
    assert_eq!(pm.as_deref(), Some("npm"));
    assert_eq!(deps.len(), 1);
}

#[test]
fn python_pipenv_and_pip() {
    let (t, deps, pm) = detect_project(&strings(&["requirements.txt", "Pipfile"]));
    assert_eq!(t, Some(ProjectType::Python));
    assert_eq!(pm.as_deref(), Some("pipenv"));
    assert_eq!(dep(&deps, "requirements").as_deref(), Some("requirements.txt"));
    assert_eq!(dep(&deps, "Pipfile").as_deref(), Some("Pipfile"));
    let (t, deps, pm) = detect_project(&strings(&["setup.py"]));
    assert_eq!(t, Some(ProjectType::Python));
    assert_eq!(pm.as_deref(), Some("pip3"));
    assert!(deps.is_empty());
}

#[test]
fn go_and_java() {
    let (t, deps, pm) = detect_project(&strings(&["go.mod", "go.sum"]));
    assert_eq!(t, Some(ProjectType::Go));
    assert_eq!(pm.as_deref(), Some("go"));
    assert_eq!(deps.len(), 2);
    let (t, deps, pm) = detect_project(&strings(&["pom.xml", "build.gradle"]));
    assert_eq!(t, Some(ProjectType::Java));
    assert_eq!(pm.as_deref(), Some("gradle"));
    assert_eq!(deps.len(), 2);
    let (_, _, pm) = detect_project(&strings(&["pom.xml"]));
    assert_eq!(pm.as_deref(), Some("maven"));
}

#[test]
fn no_marker_gives_nothing() {
    let (t, deps, pm) = detect_project(&strings(&["README.md"]));
    assert_eq!(t, None);
    assert!(deps.is_empty());
    assert_eq!(pm, None);
}

#[test]
fn child_venv_preferred_over_parent() {
    let here = strings(&["venv", "venv/bin/activate"]);
    let parent = strings(&["venv", "venv/bin/activate"]);
    assert_eq!(detect_virtual_env(&here, &parent).as_deref(), Some("venv"));
}

#[test]
fn parent_venv_when_none_here() {
    let here = strings(&["src"]);
    let parent = strings(&[".venv", ".venv/Scripts/activate"]);
    assert_eq!(detect_virtual_env(&here, &parent).as_deref(), Some("../.venv"));
}

#[test]
fn venv_without_activation_script_is_skipped() {
    let here = strings(&["venv", ".venv", ".venv/Scripts/Activate.ps1"]);
    assert_eq!(detect_virtual_env(&here, &Vec::new()).as_deref(), Some(".venv"));
    let here = strings(&["venv"]);
    assert_eq!(detect_virtual_env(&here, &Vec::new()), None);
    let here = strings(&["node_modules/.bin"]);
    assert_eq!(detect_virtual_env(&here, &Vec::new()).as_deref(), Some("node_modules/.bin"));
}

#[test]
fn important_files_keep_fixed_order() {
    let here = strings(&[".nvmrc", "Makefile", ".gitignore", "rustfmt.toml"]);
    let files = find_important_files(&here, Some(ProjectType::Node));
    assert_eq!(files, strings(&[".gitignore", "Makefile", ".nvmrc"]));
    let files = find_important_files(&here, Some(ProjectType::Rust));
    assert_eq!(files, strings(&[".gitignore", "Makefile", "rustfmt.toml"]));
}

#[test]
fn important_dirs_keep_fixed_order() {
    let dirs = strings(&["benches", "tests", "src", "app"]);
    assert_eq!(find_important_dirs(&dirs, Some(ProjectType::Rust)), strings(&["src", "tests", "benches"]));
    assert_eq!(find_important_dirs(&dirs, Some(ProjectType::Python)), strings(&["src", "tests", "app"]));
    assert_eq!(find_important_dirs(&dirs, None), strings(&["src", "tests"]));
}

#[test]
fn capture_composes_detector_results() {
    let mut env = StrMap::new();
    env.insert("HOME".to_string(), "/home/u".to_string());
    let here = strings(&["Cargo.toml", "README.md", "venv", "venv/bin/activate"]);
    let c = capture_context("demo".to_string(), "/w".to_string(), Some("dev".to_string()), env, &here,
        &strings(&["src"]), &Vec::new());
    assert_eq!(c.name, "demo");
    assert_eq!(c.project_type, Some(ProjectType::Rust));
    assert_eq!(c.package_manager.as_deref(), Some("cargo"));
    assert_eq!(c.virtual_env.as_deref(), Some("venv"));
    assert_eq!(c.important_files, strings(&["README.md"]));
    assert_eq!(c.important_dirs, strings(&["src"]));
    assert!(c.on_switch.is_none());
}

#[test]
fn simple_project_type_names() {
    assert_eq!(detect_project_type(&strings(&["package.json"])).as_deref(), Some("Node.js"));
    assert_eq!(detect_project_type(&strings(&["pyproject.toml"])).as_deref(), Some("Python"));
    assert_eq!(detect_project_type(&strings(&["Pipfile"])), None);
}
