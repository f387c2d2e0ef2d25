use devctx::model::Context;
use devctx::store::{SnapshotBackend, SnapshotStore};
use devctx::strmap::StrMap;

fn snapshot(name: &str, dir: &str) -> Context {
    let mut env = StrMap::new();
    env.insert("HOME".to_string(), "/home/u".to_string());
    Context {
        name: name.to_string(),
        working_dir: dir.to_string(),
        git_branch: None,
        env_vars: env,
        on_switch: None,
        project_type: None,
        dependencies: StrMap::new(),
        virtual_env: Some(".venv".to_string()),
        important_files: vec!["README.md".to_string()],
        important_dirs: Vec::new(),
        package_manager: None,
    }
}

fn conformance<B: SnapshotBackend>(b: &mut B) {
    b.save_context(snapshot("one", "/1")).unwrap();
    b.save_context(snapshot("two", "/2")).unwrap();
    b.save_context(snapshot("one", "/1b")).unwrap();
    let got = b.get_context("one").unwrap().unwrap();
    assert_eq!(got.working_dir, "/1b");
    assert_eq!(got.virtual_env.as_deref(), Some(".venv"));
    assert_eq!(got.env_vars.get("HOME").map(|s| s.as_str()), Some("/home/u"));
    let mut names = b.list_contexts().unwrap();
    names.sort();
    assert_eq!(names, vec!["one".to_string(), "two".to_string()]);
    assert!(b.get_context("three").unwrap().is_none());
    assert!(b.delete_context("two").unwrap());
    assert!(!b.delete_context("two").unwrap());
    assert_eq!(b.list_contexts().unwrap(), vec!["one".to_string()]);
}

#[test]
fn document_backend_conforms() {
    let mut store = SnapshotStore::new();
    conformance(&mut store);
}
