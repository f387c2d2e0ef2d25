use devctx::model::{Context, ProjectType, Shell};
use devctx::restore::{emit, join_path, requirements_path, switch_lines, venv_script_path, ContextError, RestoreProbe};
use devctx::strmap::StrMap;
use devctx::text::{escape_powershell, escape_shell};

fn nothing() -> RestoreProbe {
    RestoreProbe {
        posix_activate: false,
        windows_activate: false,
        fish_activate: false,
        ps_activate: false,
        node_modules: false,
        requirements: false,
    }
}

fn base() -> Context {
    let mut env = StrMap::new();
    env.insert("EDITOR".to_string(), "it's \"quoted\"".to_string());
    Context {
        name: "demo".to_string(),
        working_dir: "/home/u/my proj".to_string(),
        git_branch: Some("feature/x".to_string()),
        env_vars: env,
        on_switch: Some("echo switched".to_string()),
        project_type: Some(ProjectType::Python),
        dependencies: StrMap::new(),
        virtual_env: Some("venv".to_string()),
        important_files: Vec::new(),
        important_dirs: Vec::new(),
        package_manager: None,
    }
}

#[test]
fn posix_escaping_of_quotes() {
    assert_eq!(escape_shell("it's \"quoted\""), "'it'\"'\"'s \"quoted\"'");
    assert_eq!(escape_shell(""), "''");
    assert_eq!(escape_shell("$HOME"), "'$HOME'");
}

#[test]
fn powershell_escaping_doubles_quotes() {
    assert_eq!(escape_powershell("it's"), "'it''s'");
    assert_eq!(escape_powershell(""), "''");
}

#[test]
fn posix_script_order() {
    let mut f = nothing();
    f.posix_activate = true;
    f.windows_activate = true;
    let lines = emit(&base(), Shell::Bash, &f);
    assert_eq!(
        lines,
        vec![
            "cd '/home/u/my proj'".to_string(),
            "export EDITOR='it'\"'\"'s \"quoted\"'".to_string(),
            "git checkout 'feature/x' 2>/dev/null || true".to_string(),
            "source '/home/u/my proj/venv/bin/activate'".to_string(),
            "echo switched".to_string(),
        ]
    );
}

#[test]
fn posix_falls_back_to_windows_script() {
    let mut f = nothing();
    f.windows_activate = true;
    let lines = emit(&base(), Shell::Zsh, &f);
    assert_eq!(lines[3], "source '/home/u/my proj/venv/Scripts/activate'");
}

#[test]
fn no_activation_line_without_script() {
    let lines = emit(&base(), Shell::Unknown, &nothing());
    assert_eq!(lines.len(), 4);
    assert_eq!(lines[3], "echo switched");
}

#[test]
fn fish_script() {
    let mut f = nothing();
    f.fish_activate = true;
    let lines = emit(&base(), Shell::Fish, &f);
    assert_eq!(
        lines,
        vec![
            "cd '/home/u/my proj'".to_string(),
            "set -gx EDITOR 'it'\"'\"'s \"quoted\"'".to_string(),
            "git checkout 'feature/x' 2>/dev/null; or true".to_string(),
            "source '/home/u/my proj/venv/bin/activate.fish'".to_string(),
            "echo switched".to_string(),
        ]
    );
}

#[test]
fn powershell_script() {
    let mut f = nothing();
    f.ps_activate = true;
    let lines = emit(&base(), Shell::PowerShell, &f);
    assert_eq!(
        lines,
        vec![
            "Set-Location '/home/u/my proj'".to_string(),
            "$env:EDITOR = 'it''s \"quoted\"'".to_string(),
            "git checkout 'feature/x' 2>$null; if ($?) { }".to_string(),
            "& '/home/u/my proj/venv/Scripts/Activate.ps1'".to_string(),
            "echo switched".to_string(),
        ]
    );
}

#[test]
fn node_install_only_without_node_modules() {
    let mut c = base();
    c.virtual_env = None;
    c.git_branch = None;
    c.on_switch = None;
    c.env_vars = StrMap::new();
    c.package_manager = Some("yarn".to_string());
    let lines = emit(&c, Shell::Bash, &nothing());
    assert_eq!(
        lines,
        vec![
            "cd '/home/u/my proj'".to_string(),
            "echo 'Installing dependencies...'".to_string(),
            "yarn install 2>/dev/null || npm install".to_string(),
        ]
    );
    let mut f = nothing();
    f.node_modules = true;
    assert_eq!(emit(&c, Shell::Bash, &f).len(), 1);
    c.package_manager = Some("npm".to_string());
    assert_eq!(emit(&c, Shell::Bash, &nothing())[2], "npm install");
    assert_eq!(emit(&c, Shell::Fish, &nothing()).len(), 1);
}

#[test]
fn pip_install_needs_requirements_file() {
    let mut c = base();
    c.virtual_env = None;
    c.git_branch = None;
    c.on_switch = None;
    c.env_vars = StrMap::new();
    c.package_manager = Some("pip3".to_string());
    c.dependencies.insert("requirements".to_string(), "requirements.txt".to_string());
    assert_eq!(requirements_path(&c).as_deref(), Some("/home/u/my proj/requirements.txt"));
    let mut f = nothing();
    f.requirements = true;
    let lines = emit(&c, Shell::Bash, &f);
    assert_eq!(lines[1], "echo 'Installing Python dependencies...'");
    assert_eq!(lines[2], "pip3 install -r '/home/u/my proj/requirements.txt' 2>/dev/null || true");
    assert_eq!(emit(&c, Shell::Bash, &nothing()).len(), 1);
}

#[test]
fn switch_to_missing_name_prints_nothing() {
    let r = switch_lines(None, "nonexistent", Shell::Bash, &nothing());
    match r {
        Err(ContextError::NotFound(n)) => assert_eq!(n, "nonexistent"),
        Ok(_) => panic!("a missing snapshot must not give a script"),
    }
    let c = base();
    assert_eq!(switch_lines(Some(&c), "demo", Shell::Bash, &nothing()).unwrap()[0], "cd '/home/u/my proj'");
}

#[test]
fn paths_for_probing() {
    assert_eq!(join_path("/a", "b"), "/a/b");
    assert_eq!(join_path("/a/", "b"), "/a/b");
    let c = base();
    assert_eq!(venv_script_path(&c, "bin/activate").as_deref(), Some("/home/u/my proj/venv/bin/activate"));
    let mut c2 = base();
    c2.virtual_env = None;
    assert_eq!(venv_script_path(&c2, "bin/activate"), None);
}
