//! The decisions of the event loop: which workspace a change belongs to,
//! and which synchronisation jobs it starts.
use vstd::prelude::*;

use crate::config::Workspace;
use crate::fstree::{closest, deref_opt, FsTree, SegPath};
use crate::glob::any_matches;
use crate::paths::path_components;
use crate::text::owned;

verus! {

/// What happened at a path.
#[derive(Debug, PartialEq, Eq, Structural, Clone, Copy)]
pub enum ChangeKind {
    Create,
    Modify,
    Remove,
    Rename,
    Other,
}

/// One synchronisation to run: the target at index `target` of the
/// workspace rooted at `workspace_path`, for a change at `file_path`.
#[derive(Debug)]
pub struct SyncJob {
    pub target: usize,
    pub workspace_path: String,
    pub file_path: String,
    pub kind: ChangeKind,
}

/// The workspace that a change at `path` is synchronised for: the one
/// registered at the deepest ancestor of `path`, unless it ignores `path`.
pub open spec fn owner_of(m: Map<SegPath, Workspace>, path: Seq<char>) -> Option<Workspace> {
    match closest(m, path_components(path)) {
        Some(w) => if any_matches(w.ignore_patterns(), path) {
            None
        } else {
            Some(w)
        },
        None => None,
    }
}

/// The workspace that a change at `path` is synchronised for, if any.
pub fn route<'a>(index: &'a FsTree<Workspace>, path: &str) -> (r: Option<&'a Workspace>)
    requires
        index.wf(),
    ensures
        deref_opt(r) == owner_of(index@, path@),
{
    match index.get_closest(path) {
        Some(w) => if w.should_sync(path) {
            Some(w)
        } else {
            None
        },
        None => None,
    }
}

impl Workspace {
    /// One job per target of the workspace, in order, each for the change
    /// `kind` at `path`.
    pub fn fan_out(&self, path: &str, kind: ChangeKind) -> (r: Vec<SyncJob>)
        ensures
            r@.len() == self.syncers@.len(),
            forall|i: int|
                0 <= i < r@.len() ==> {
                    &&& (#[trigger] r@[i]).target == i
                    &&& r@[i].workspace_path@ == self.path@
                    &&& r@[i].file_path@ == path@
                    &&& r@[i].kind == kind
                },
    {
        let mut r: Vec<SyncJob> = Vec::new();
        let mut i: usize = 0;
        while i < self.syncers.len()
            invariant
                i <= self.syncers@.len(),
                r@.len() == i,
                forall|a: int|
                    0 <= a < i ==> {
                        &&& (#[trigger] r@[a]).target == a
                        &&& r@[a].workspace_path@ == self.path@
                        &&& r@[a].file_path@ == path@
                        &&& r@[a].kind == kind
                    },
            decreases self.syncers@.len() - i,
        {
            r.push(
                SyncJob {
                    target: i,
                    workspace_path: owned(self.path.as_str()),
                    file_path: owned(path),
                    kind,
                },
            );
            i += 1;
        }
        r
    }
}

/// The jobs that a change at `path` starts: one per target of the workspace
/// it is synchronised for, none when no workspace takes it.
pub fn dispatch(index: &FsTree<Workspace>, path: &str, kind: ChangeKind) -> (r: Vec<SyncJob>)
    requires
        index.wf(),
    ensures
        match owner_of(index@, path@) {
            Some(w) => r@.len() == w.syncers@.len() && forall|i: int|
                0 <= i < r@.len() ==> {
                    &&& (#[trigger] r@[i]).target == i
                    &&& r@[i].workspace_path@ == w.path@
                    &&& r@[i].file_path@ == path@
                    &&& r@[i].kind == kind
                },
            None => r@.len() == 0,
        },
{
    match route(index, path) {
        Some(w) => w.fan_out(path, kind),
        None => Vec::new(),
    }
}

} // verus!
