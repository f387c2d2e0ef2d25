//! Building a snapshot from what the detector and the sampler found.
use vstd::prelude::*;
use crate::detect::{common_dirs, common_files, detect_project, detect_virtual_env, detected_deps, detected_manager,
    detected_type, detected_venv, find_important_dirs, find_important_files, keep_present, type_dirs, type_files};
use crate::model::{Context, strs_view};
use crate::strmap::{StrMap, opt_view};

verus! {

/// A fresh snapshot named `name` of the directory `working_dir`, whose
/// present paths are `here`, whose present subdirectories are `dirs`, and
/// whose parent's present paths are `parent`. It has no switch hook.
pub fn capture_context(
    name: String,
    working_dir: String,
    git_branch: Option<String>,
    env_vars: StrMap,
    here: &Vec<String>,
    dirs: &Vec<String>,
    parent: &Vec<String>,
) -> (r: Context)
    requires
        env_vars.wf(),
    ensures
        r.wf(),
        r.name@ == name@,
        r.working_dir@ == working_dir@,
        opt_view(r.git_branch) == opt_view(git_branch),
        r.env_vars@ == env_vars@,
        r.on_switch is None,
        r.project_type == detected_type(here@),
        r.dependencies@ == detected_deps(here@),
        opt_view(r.package_manager) == detected_manager(here@),
        opt_view(r.virtual_env) == detected_venv(here@, parent@),
        strs_view(r.important_files@) == keep_present(here@, common_files()) + keep_present(here@, type_files(detected_type(here@))),
        strs_view(r.important_dirs@) == keep_present(dirs@, common_dirs()) + keep_present(dirs@, type_dirs(detected_type(here@))),
{
    let (project_type, dependencies, package_manager) = detect_project(here);
    let virtual_env = detect_virtual_env(here, parent);
    let important_files = find_important_files(here, project_type);
    let important_dirs = find_important_dirs(dirs, project_type);
    Context {
        name,
        working_dir,
        git_branch,
        env_vars,
        on_switch: None,
        project_type,
        dependencies,
        virtual_env,
        important_files,
        important_dirs,
        package_manager,
    }
}

} // verus!
