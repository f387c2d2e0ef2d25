use devctx::ctx_file::{Context as FileContext, ContextStore};
use devctx::migrate::{alter_statement, migration_plan, missing_columns};
use devctx::model::{ProjectType, Shell};
use devctx::sample::{branch_from_output, detect_shell, env_allowlist, sample_env};
use devctx::snip_file::{ErrorCache, Snippet as FileSnippet, SnippetStore};
use devctx::strmap::StrMap;
use devctx::template::{parse_tags, parse_vars};
use devctx::wtf::{advice_for_lowered, analyze_error_pattern};

fn strings(xs: &[&str]) -> Vec<String> {
    xs.iter().map(|s| s.to_string()).collect()
}

#[test]
fn migration_adds_only_missing_columns() {
    let old = strings(&["name", "working_dir", "git_branch", "env_vars", "on_switch"]);
    assert_eq!(
        missing_columns(&old),
        strings(&["project_type", "dependencies", "virtual_env", "important_files", "important_dirs", "package_manager"])
    );
    let partial = strings(&["name", "working_dir", "git_branch", "env_vars", "on_switch", "project_type", "virtual_env"]);
    assert_eq!(
        migration_plan(&partial),
        strings(&[
            "ALTER TABLE contexts ADD COLUMN dependencies TEXT",
            "ALTER TABLE contexts ADD COLUMN important_files TEXT",
            "ALTER TABLE contexts ADD COLUMN important_dirs TEXT",
            "ALTER TABLE contexts ADD COLUMN package_manager TEXT",
        ])
    );
}

#[test]
fn migration_twice_adds_nothing_the_second_time() {
    let mut cols = strings(&["name", "working_dir", "git_branch", "env_vars", "on_switch", "dependencies"]);
    let first = missing_columns(&cols);
    assert_eq!(first.len(), 5);
    cols.extend(first);
    assert!(migration_plan(&cols).is_empty());
    let mut sorted = cols.clone();
    sorted.sort();
    sorted.dedup();
    assert_eq!(sorted.len(), cols.len());
    assert_eq!(cols.len(), 11);
}

#[test]
fn alter_statement_text() {
    assert_eq!(alter_statement("virtual_env"), "ALTER TABLE contexts ADD COLUMN virtual_env TEXT");
}

#[test]
fn sampler_keeps_allowed_names_only() {
    let found = vec![
        ("PATH".to_string(), "/bin".to_string()),
        ("AWS_SECRET_ACCESS_KEY".to_string(), "SECRET-REDACTED".to_string()),
        ("path".to_string(), "lower".to_string()),
        ("HOME".to_string(), "/h".to_string()),
    ];
    let env = sample_env(&found, &env_allowlist());
    assert_eq!(env.len(), 2);
    assert_eq!(env.get("PATH").map(|s| s.as_str()), Some("/bin"));
    assert_eq!(env.get("HOME").map(|s| s.as_str()), Some("/h"));
    assert!(env.get("AWS_SECRET_ACCESS_KEY").is_none());
    assert!(env.get("path").is_none());
    assert_eq!(env_allowlist().len(), 15);
}

#[test]
fn branch_output_is_trimmed() {
    assert_eq!(branch_from_output(true, "  main\n").as_deref(), Some("main"));
    assert_eq!(branch_from_output(false, "fatal: not a git repository"), None);
}

#[test]
fn shell_dialect_from_shell_variable() {
    assert_eq!(detect_shell(Some("/bin/bash")), Some(Shell::Bash));
    assert_eq!(detect_shell(Some("/usr/bin/zsh")), Some(Shell::Zsh));
    assert_eq!(detect_shell(Some("/usr/local/bin/fish")), Some(Shell::Fish));
    assert_eq!(detect_shell(Some("/opt/pwsh")), Some(Shell::PowerShell));
    assert_eq!(detect_shell(Some("/bin/tcsh")), Some(Shell::Unknown));
    assert_eq!(detect_shell(None), None);
}

#[test]
fn error_patterns_ignore_case() {
    let (cause, _) = analyze_error_pattern("FATAL: OUT OF MEMORY");
    assert_eq!(cause, "Memory issue");
    let (cause, fix) = analyze_error_pattern("Error: Cannot find module 'x'");
    assert_eq!(cause, "Module or file not found");
    assert_eq!(fix, "Check the file path and ensure the module exists. Verify imports and file structure.");
    let (cause, _) = analyze_error_pattern("something odd");
    assert_eq!(cause, "Unknown error pattern");
}

#[test]
fn first_matching_phrase_decides() {
    let (cause, _) = advice_for_lowered("permission denied: x is not defined");
    assert_eq!(cause, "Variable or function is undefined");
    let (cause, _) = advice_for_lowered("connection refused");
    assert_eq!(cause, "Connection failed");
}

#[test]
fn snippet_variables_split_at_first_equals() {
    let m = parse_vars(strings(&["name=world", "expr=a=b", "name=again"])).unwrap();
    assert_eq!(m.len(), 2);
    assert_eq!(m.get("name").map(|s| s.as_str()), Some("again"));
    assert_eq!(m.get("expr").map(|s| s.as_str()), Some("a=b"));
    let e = parse_vars(strings(&["ok=1", "broken", "also"])).unwrap_err();
    assert_eq!(e, "Invalid variable format: broken. Expected key=value");
    assert!(parse_vars(Vec::new()).unwrap().is_empty());
}

#[test]
fn document_store_of_contexts() {
    let mut store = ContextStore::new();
    let mk = |name: &str, path: &str| FileContext {
        name: name.to_string(),
        path: path.to_string(),
        env_vars: StrMap::new(),
        git_branch: None,
        project_type: Some("Rust".to_string()),
        description: None,
    };
    store.add(mk("a", "/a"));
    store.add(mk("b", "/b"));
    store.add(mk("a", "/a2"));
    assert_eq!(store.list().len(), 2);
    assert_eq!(store.get("a").unwrap().path, "/a2");
    assert!(store.remove("a").is_some());
    assert!(store.get("a").is_none());
    assert!(store.remove("a").is_none());
}

#[test]
fn document_store_of_snippets() {
    let mut store = SnippetStore::new();
    store.add(FileSnippet {
        name: "build".to_string(),
        content: "cargo build".to_string(),
        description: None,
        tags: strings(&["rust"]),
        usage_count: 0,
    });
    store.get_mut("build").unwrap().usage_count += 1;
    assert_eq!(store.list()[0].usage_count, 1);
    assert!(store.get_mut("missing").is_none());
}

#[test]
fn error_cache_exact_match() {
    let mut cache = ErrorCache::new();
    cache.insert("E1".to_string(), "first".to_string());
    cache.insert("E1".to_string(), "second".to_string());
    assert_eq!(cache.get("E1").as_deref(), Some("second"));
    assert_eq!(cache.get("e1"), None);
}

#[test]
fn project_type_labels() {
    assert_eq!(ProjectType::Rust.label(), "Rust");
    assert_eq!(ProjectType::Unknown.label(), "Unknown");
}

#[test]
fn tags_are_split_trimmed_and_nonempty() {
    assert_eq!(parse_tags(" rust, build ,,cli "), strings(&["rust", "build", "cli"]));
    assert!(parse_tags("").is_empty());
    assert!(parse_tags(" , ").is_empty());
}

#[test]
fn project_type_labels_read_back() {
    assert_eq!(ProjectType::from_label("Python"), Some(ProjectType::Python));
    assert_eq!(ProjectType::from_label("python"), None);
}
