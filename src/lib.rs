//! Resolves file-change events to the most specific configured workspace,
//! filters ignored paths, and builds the synchronisation commands that each
//! workspace's targets run.
pub mod fstree;
pub mod paths;
pub mod text;
pub mod ssh;
pub mod rsync_cli;
pub mod rsync;
pub mod rsyncer;
pub mod config;
pub mod glob;
pub mod dispatch;
pub mod cli;
