//! Repo view sections: tab and status-filter state, list filtering and selection.

pub mod browser;
pub mod sections;

pub use browser::{IssueStatus, JobStatus, PatchStatus, RepoBrowser, RepoUi, Tab};
pub use sections::{Commits, Files, Meta, Readme, RepoList};
