//! Version-control state of a project, as read from its Git repository.

use vstd::prelude::*;

use crate::error::CoreError;
use crate::types::{CommitInfo, VcsInfo, VcsType};

verus! {

/// Reads version-control state with libgit2.
#[derive(Debug)]
pub struct Git2Inspector;

impl Git2Inspector {
    /// The state of a repository from what was read of it: its branch (when
    /// the head is a branch), the URL of `origin`, the listing of changed and
    /// untracked files, and the last commit. The working tree is dirty when
    /// the listing succeeded and is not empty; a failed listing counts as clean.
    pub fn vcs_info(
        branch: Option<String>,
        remote_url: Option<String>,
        dirty_files: &Result<Vec<String>, CoreError>,
        last_commit: Option<CommitInfo>,
    ) -> (v: VcsInfo)
        ensures
            v.vcs_type == VcsType::Git,
            v.branch == branch,
            v.remote_url == remote_url,
            v.is_dirty == (dirty_files matches Ok(files) && files@.len() > 0),
            v.last_commit == last_commit,
    {
        let is_dirty = match dirty_files {
            Ok(files) => files.len() > 0,
            Err(_) => false,
        };
        VcsInfo { vcs_type: VcsType::Git, branch, remote_url, is_dirty, last_commit }
    }
}

} // verus!
