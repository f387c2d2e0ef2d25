//! The captured project context and the small enumerations around it.
use vstd::prelude::*;
use crate::strmap::{StrMap, copy_opt, copy_strings, opt_view};
use crate::text::{owned, str_eq};

verus! {

/// The kind of project found in a directory.
#[derive(Clone, Copy, Debug, PartialEq, Eq, Structural)]
pub enum ProjectType {
    Rust,
    Node,
    Python,
    Go,
    Java,
    Unknown,
}

/// The name under which a project type is shown.
pub open spec fn project_type_label(t: ProjectType) -> Seq<char> {
    match t {
        ProjectType::Rust => "Rust"@,
        ProjectType::Node => "Node"@,
        ProjectType::Python => "Python"@,
        ProjectType::Go => "Go"@,
        ProjectType::Java => "Java"@,
        ProjectType::Unknown => "Unknown"@,
    }
}

impl ProjectType {
    pub fn label(&self) -> (r: String)
        ensures
            r@ == project_type_label(*self),
    {
        match self {
            ProjectType::Rust => owned("Rust"),
            ProjectType::Node => owned("Node"),
            ProjectType::Python => owned("Python"),
            ProjectType::Go => owned("Go"),
            ProjectType::Java => owned("Java"),
            ProjectType::Unknown => owned("Unknown"),
        }
    }

    /// The project type shown as `s`, if any.
    pub fn from_label(s: &str) -> (r: Option<ProjectType>)
        ensures
            match r {
                Some(t) => project_type_label(t) == s@,
                None => forall|t: ProjectType| project_type_label(t) != s@,
            },
    {
        if str_eq(s, "Rust") {
            Some(ProjectType::Rust)
        } else if str_eq(s, "Node") {
            Some(ProjectType::Node)
        } else if str_eq(s, "Python") {
            Some(ProjectType::Python)
        } else if str_eq(s, "Go") {
            Some(ProjectType::Go)
        } else if str_eq(s, "Java") {
            Some(ProjectType::Java)
        } else if str_eq(s, "Unknown") {
            Some(ProjectType::Unknown)
        } else {
            None
        }
    }
}

/// A shell dialect that restoration code can be written for.
#[derive(Clone, Copy, Debug, PartialEq, Eq, Structural)]
pub enum Shell {
    Bash,
    Zsh,
    Fish,
    PowerShell,
    Unknown,
}

/// A named snapshot of a project's working context.
#[derive(Debug)]
pub struct Context {
    pub name: String,
    pub working_dir: String,
    pub git_branch: Option<String>,
    pub env_vars: StrMap,
    pub on_switch: Option<String>,
    pub project_type: Option<ProjectType>,
    pub dependencies: StrMap,
    pub virtual_env: Option<String>,
    pub important_files: Vec<String>,
    pub important_dirs: Vec<String>,
    pub package_manager: Option<String>,
}

/// The value a `Context` stands for.
pub ghost struct ContextView {
    pub name: Seq<char>,
    pub working_dir: Seq<char>,
    pub git_branch: Option<Seq<char>>,
    pub env_vars: Map<Seq<char>, Seq<char>>,
    pub on_switch: Option<Seq<char>>,
    pub project_type: Option<ProjectType>,
    pub dependencies: Map<Seq<char>, Seq<char>>,
    pub virtual_env: Option<Seq<char>>,
    pub important_files: Seq<Seq<char>>,
    pub important_dirs: Seq<Seq<char>>,
    pub package_manager: Option<Seq<char>>,
}

/// The characters of each string, in order.
pub open spec fn strs_view(v: Seq<String>) -> Seq<Seq<char>> {
    v.map_values(|s: String| s@)
}

impl View for Context {
    type V = ContextView;

    open spec fn view(&self) -> ContextView {
        ContextView {
            name: self.name@,
            working_dir: self.working_dir@,
            git_branch: opt_view(self.git_branch),
            env_vars: self.env_vars@,
            on_switch: opt_view(self.on_switch),
            project_type: self.project_type,
            dependencies: self.dependencies@,
            virtual_env: opt_view(self.virtual_env),
            important_files: strs_view(self.important_files@),
            important_dirs: strs_view(self.important_dirs@),
            package_manager: opt_view(self.package_manager),
        }
    }
}

impl Context {
    /// Both maps hold distinct keys.
    pub open spec fn wf(&self) -> bool {
        self.env_vars.wf() && self.dependencies.wf()
    }

    /// A field-for-field copy.
    pub fn copy(&self) -> (r: Context)
        ensures
            r@ == self@,
            r.wf() == self.wf(),
    {
        Context {
            name: self.name.clone(),
            working_dir: self.working_dir.clone(),
            git_branch: copy_opt(&self.git_branch),
            env_vars: self.env_vars.copy(),
            on_switch: copy_opt(&self.on_switch),
            project_type: self.project_type,
            dependencies: self.dependencies.copy(),
            virtual_env: copy_opt(&self.virtual_env),
            important_files: copy_strings(&self.important_files),
            important_dirs: copy_strings(&self.important_dirs),
            package_manager: copy_opt(&self.package_manager),
        }
    }
}

/// A saved command template.
#[derive(Clone, Debug)]
pub struct Snippet {
    pub name: String,
    pub command: String,
    pub tags: Vec<String>,
}

/// User configuration; it has no settings yet.
#[derive(Clone, Copy, Debug, PartialEq, Eq, Structural)]
pub struct Config {}

impl Default for Config {
    fn default() -> (r: Config)
        ensures
            r == (Config {}),
    {
        Config {}
    }
}

} // verus!
