use devctx::model::{Context, ProjectType};
use devctx::store::SnapshotStore;
use devctx::strmap::StrMap;

fn strings(xs: &[&str]) -> Vec<String> {
    xs.iter().map(|s| s.to_string()).collect()
}

fn sample(name: &str, dir: &str) -> Context {
    let mut env = StrMap::new();
    env.insert("PATH".to_string(), "/usr/bin".to_string());
    env.insert("EDITOR".to_string(), "vim".to_string());
    let mut deps = StrMap::new();
    deps.insert("Cargo.toml".to_string(), "Cargo.toml".to_string());
    Context {
        name: name.to_string(),
        working_dir: dir.to_string(),
        git_branch: Some("main".to_string()),
        env_vars: env,
        on_switch: Some("echo hi".to_string()),
        project_type: Some(ProjectType::Rust),
        dependencies: deps,
        virtual_env: None,
        important_files: strings(&["README.md", "LICENSE"]),
        important_dirs: strings(&["src"]),
        package_manager: Some("cargo".to_string()),
    }
}

fn same(a: &Context, b: &Context) -> bool {
    a.name == b.name
        && a.working_dir == b.working_dir
        && a.git_branch == b.git_branch
        && a.env_vars.entries == b.env_vars.entries
        && a.on_switch == b.on_switch
        && a.project_type == b.project_type
        && a.dependencies.entries == b.dependencies.entries
        && a.virtual_env == b.virtual_env
        && a.important_files == b.important_files
        && a.important_dirs == b.important_dirs
        && a.package_manager == b.package_manager
}

#[test]
fn round_trip_keeps_every_field() {
    let mut store = SnapshotStore::new();
    let c = sample("demo", "/home/u/demo");
    store.save(c.copy());
    let got = store.get("demo").expect("saved snapshot is found");
    assert!(same(&got, &c));
}

#[test]
fn round_trip_keeps_empty_fields() {
    let mut store = SnapshotStore::new();
    let c = Context {
        name: "bare".to_string(),
        working_dir: "/tmp".to_string(),
        git_branch: None,
        env_vars: StrMap::new(),
        on_switch: None,
        project_type: None,
        dependencies: StrMap::new(),
        virtual_env: None,
        important_files: Vec::new(),
        important_dirs: Vec::new(),
        package_manager: None,
    };
    store.save(c.copy());
    let got = store.get("bare").unwrap();
    assert!(same(&got, &c));
    assert!(got.env_vars.entries.is_empty());
    assert!(got.important_files.is_empty());
}

#[test]
fn saving_twice_keeps_one_entry_with_second_contents() {
    let mut store = SnapshotStore::new();
    store.save(sample("demo", "/first"));
    store.save(sample("other", "/other"));
    store.save(sample("demo", "/second"));
    assert_eq!(store.len(), 2);
    assert_eq!(store.list(), strings(&["demo", "other"]));
    assert_eq!(store.get("demo").unwrap().working_dir, "/second");
}

#[test]
fn missing_name_is_not_found() {
    let mut store = SnapshotStore::new();
    store.save(sample("demo", "/d"));
    assert!(store.get("nonexistent").is_none());
    assert!(!store.delete("nonexistent"));
    assert_eq!(store.len(), 1);
}

#[test]
fn delete_removes_only_that_name() {
    let mut store = SnapshotStore::new();
    store.save(sample("a", "/a"));
    store.save(sample("b", "/b"));
    assert!(store.delete("a"));
    assert!(store.get("a").is_none());
    assert!(store.get("b").is_some());
    assert_eq!(store.list(), strings(&["b"]));
    assert!(!store.delete("a"));
}

#[test]
fn list_of_empty_store_is_empty() {
    let store = SnapshotStore::new();
    assert!(store.list().is_empty());
    assert_eq!(store.len(), 0);
}
