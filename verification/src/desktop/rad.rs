//! Repository snapshot of the desktop viewer: identity, README, root tree and
//! history (no COB lists).

use vstd::prelude::*;

pub use crate::rad::{RadError, RepoSummary};
use crate::view_api::{CommitRow, FileRow};

verus! {

/// A loaded repository.
#[derive(Debug, Clone)]
pub struct RepoView {
    pub rid: String,
    pub name: String,
    pub description: String,
    pub head: String,
    pub head_oid: String,
    pub readme: String,
    pub files: Vec<FileRow>,
    pub commits: Vec<CommitRow>,
}

} // verus!
