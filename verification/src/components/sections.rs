//! Section components of the repo view.

use vstd::prelude::*;

verus! {

/// Commit history listing.
pub struct Commits;

/// Root file tree listing.
pub struct Files;

/// Repo identity header: name, description, RID, head.
pub struct Meta;

/// README section.
pub struct Readme;

/// Startup page: recently viewed and local inventory.
pub struct RepoList;

} // verus!
