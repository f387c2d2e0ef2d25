//! The commands the tool accepts, as plain values.
use vstd::prelude::*;

verus! {

/// A parsed command line.
#[derive(Debug)]
pub struct Cli {
    pub command: Commands,
}

/// The top-level commands.
#[derive(Debug)]
pub enum Commands {
    Ctx(CtxArgs),
    Wtf(WtfArgs),
    Snip(SnipArgs),
    Config(ConfigArgs),
}

#[derive(Debug)]
pub struct CtxArgs {
    pub command: CtxCommand,
}

/// The context commands.
#[derive(Debug)]
pub enum CtxCommand {
    Save { name: String },
    Switch { name: String },
    List,
    Show { name: String },
    Delete { name: String },
    Diff { name: String },
}

#[derive(Debug)]
pub struct WtfArgs {
    pub error_text: String,
}

#[derive(Debug)]
pub struct SnipArgs {
    pub command: SnipCommand,
}

/// The snippet commands.
#[derive(Debug)]
pub enum SnipCommand {
    Add { name: String, command: String, tags: Option<String> },
    List { tag: Option<String> },
    Run { name: String, vars: Vec<String>, dry_run: bool },
}

#[derive(Debug)]
pub struct ConfigArgs {}

} // verus!
