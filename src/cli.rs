//! The commands of the command line.
use vstd::prelude::*;

use crate::paths::join_path_string;

verus! {

/// What to do with the targets of a workspace.
#[derive(Debug, PartialEq, Eq, Clone)]
pub enum WorkspaceSyncerCommand {
    /// Add a target to a workspace.
    Add { syncer_type: SyncerType },
    /// Remove a kind of target from a workspace.
    Remove { syncer_type: SyncerType },
}

/// The kinds of target.
#[derive(Debug, PartialEq, Eq, Structural, Clone, Copy)]
pub enum SyncerType {
    Rsync,
}

/// What to do with a workspace.
#[derive(Debug, PartialEq, Eq, Clone)]
pub enum WorkspaceCommand {
    Add,
    Remove,
    Syncers(WorkspaceSyncerCommand),
}

/// The command given.
#[derive(Debug, PartialEq, Eq, Clone)]
pub enum Command {
    /// Watch the workspaces and synchronise them.
    Sync,
    /// Write a configuration file.
    Init,
    /// Change a workspace of the configuration.
    Workspace { command: WorkspaceCommand, src_path: String },
}

/// The parsed command line.
#[derive(Debug, PartialEq, Eq, Clone)]
pub struct Cli {
    /// The configuration file, when another than the default is wanted.
    pub config: Option<String>,
    pub command: Command,
}

impl Cli {
    /// The configuration file to read: the one given, else the default one
    /// under the home directory `home`.
    pub fn config_path(&self, home: &str) -> (r: String)
        ensures
            r@ == match self.config {
                Some(c) => c@,
                None => crate::paths::join_path(home@, ".config/rust-dev-sync-config.yaml"@),
            },
    {
        match &self.config {
            Some(c) => c.clone(),
            None => join_path_string(home, ".config/rust-dev-sync-config.yaml"),
        }
    }
}

} // verus!
