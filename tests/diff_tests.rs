use devctx::diff::{count_lines, diff_contexts, diff_env, uncommitted_changes};
use devctx::model::Context;
use devctx::strmap::StrMap;

fn map(pairs: &[(&str, &str)]) -> StrMap {
    let mut m = StrMap::new();
    for (k, v) in pairs {
        m.insert(k.to_string(), v.to_string());
    }
    m
}

fn ctx(dir: &str, branch: Option<&str>, deps: StrMap, env: StrMap) -> Context {
    Context {
        name: "x".to_string(),
        working_dir: dir.to_string(),
        git_branch: branch.map(|b| b.to_string()),
        env_vars: env,
        on_switch: None,
        project_type: None,
        dependencies: deps,
        virtual_env: None,
        important_files: Vec::new(),
        important_dirs: Vec::new(),
        package_manager: None,
    }
}

#[test]
fn dependency_diff_is_asymmetric() {
    let current = ctx("/w", None, map(&[("A", "a"), ("B", "b")]), StrMap::new());
    let saved = ctx("/w", None, map(&[("B", "b"), ("C", "c")]), StrMap::new());
    let d = diff_contexts(&current, &saved);
    assert_eq!(d.added_deps, vec!["A".to_string()]);
    assert_eq!(d.removed_deps, vec!["C".to_string()]);
    assert!(!d.working_dir_changed);
    assert!(!d.branch_changed);
}

#[test]
fn env_diff_ignores_saved_only_keys() {
    let saved = map(&[("PATH", "/bin"), ("HOME", "/h"), ("OLD", "1")]);
    let current = map(&[("PATH", "/usr/bin"), ("HOME", "/h"), ("NEW", "2")]);
    let changes = diff_env(&saved, &current);
    assert_eq!(changes.len(), 2);
    assert_eq!(changes.get("PATH").map(|s| s.as_str()), Some("/usr/bin"));
    assert_eq!(changes.get("NEW").map(|s| s.as_str()), Some("2"));
    assert!(changes.get("OLD").is_none());
    assert!(changes.get("HOME").is_none());
}

#[test]
fn branch_absence_is_a_value() {
    let a = ctx("/w", None, StrMap::new(), StrMap::new());
    let b = ctx("/v", Some("main"), StrMap::new(), map(&[("K", "v")]));
    let d = diff_contexts(&b, &a);
    assert!(d.branch_changed);
    assert!(d.working_dir_changed);
    assert_eq!(d.env_changed, 1);
    let d = diff_contexts(&a, &a);
    assert!(!d.branch_changed);
    assert_eq!(d.env_changed, 0);
    assert!(d.added_deps.is_empty() && d.removed_deps.is_empty());
}

#[test]
fn status_lines_are_counted() {
    assert_eq!(count_lines(""), 0);
    assert_eq!(count_lines(" M a.rs\n?? b.rs\n"), 2);
    assert_eq!(count_lines(" M a.rs\n?? b.rs"), 2);
    assert_eq!(count_lines("\n\n"), 2);
    assert_eq!(uncommitted_changes(false, " M a.rs\n"), 0);
    assert_eq!(uncommitted_changes(true, " M a.rs\n"), 1);
}
