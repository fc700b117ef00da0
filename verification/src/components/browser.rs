//! Files / Commits / Patches / Issues / Jobs browser state (host-owned selection).

use vstd::prelude::*;
use vstd::string::*;

use crate::text::{contains, dup_slice, has_substring, lowercase, owned, str_eq, to_lowercase};
use crate::view_api::{FileRow, IssueRow, JobRow, PatchRow};

verus! {

/// The repo browser tabs.
#[derive(Debug, Clone, Copy, PartialEq, Eq, Structural)]
pub enum Tab {
    Files,
    Commits,
    Patches,
    Issues,
    Jobs,
}

impl Default for Tab {
    fn default() -> (r: Self)
        ensures
            r == Tab::Files,
    {
        Tab::Files
    }
}

/// Patch list status tabs (Radicle states + All).
#[derive(Debug, Clone, Copy, PartialEq, Eq, Structural)]
pub enum PatchStatus {
    Open,
    Draft,
    Merged,
    Archived,
    All,
}

impl Default for PatchStatus {
    fn default() -> (r: Self)
        ensures
            r == PatchStatus::Open,
    {
        PatchStatus::Open
    }
}

impl PatchStatus {
    /// Tab caption.
    pub open spec fn label_text(self) -> Seq<char> {
        match self {
            PatchStatus::Open => "Open"@,
            PatchStatus::Draft => "Draft"@,
            PatchStatus::Merged => "Merged"@,
            PatchStatus::Archived => "Archived"@,
            PatchStatus::All => "All"@,
        }
    }

    /// The patch state string this filter selects (`All` selects every state).
    pub open spec fn accepts(self, state: Seq<char>) -> bool {
        match self {
            PatchStatus::All => true,
            PatchStatus::Open => state == "open"@,
            PatchStatus::Draft => state == "draft"@,
            PatchStatus::Merged => state == "merged"@,
            PatchStatus::Archived => state == "archived"@,
        }
    }

    /// Tab caption.
    pub fn label(self) -> (r: &'static str)
        ensures
            r@ == self.label_text(),
    {
        match self {
            Self::Open => "Open",
            Self::Draft => "Draft",
            Self::Merged => "Merged",
            Self::Archived => "Archived",
            Self::All => "All",
        }
    }

    /// Whether a patch in `state` is listed under this filter.
    pub fn matches(self, state: &str) -> (r: bool)
        ensures
            r == self.accepts(state@),
    {
        match self {
            Self::All => true,
            Self::Open => str_eq(state, "open"),
            Self::Draft => str_eq(state, "draft"),
            Self::Merged => str_eq(state, "merged"),
            Self::Archived => str_eq(state, "archived"),
        }
    }
}

/// Issue list status tabs.
#[derive(Debug, Clone, Copy, PartialEq, Eq, Structural)]
pub enum IssueStatus {
    Open,
    Closed,
    All,
}

impl Default for IssueStatus {
    fn default() -> (r: Self)
        ensures
            r == IssueStatus::Open,
    {
        IssueStatus::Open
    }
}

impl IssueStatus {
    /// Tab caption.
    pub open spec fn label_text(self) -> Seq<char> {
        match self {
            IssueStatus::Open => "Open"@,
            IssueStatus::Closed => "Closed"@,
            IssueStatus::All => "All"@,
        }
    }

    /// The issue state string this filter selects.
    pub open spec fn accepts(self, state: Seq<char>) -> bool {
        match self {
            IssueStatus::All => true,
            IssueStatus::Open => state == "open"@,
            IssueStatus::Closed => state == "closed"@,
        }
    }

    /// Tab caption.
    pub fn label(self) -> (r: &'static str)
        ensures
            r@ == self.label_text(),
    {
        match self {
            Self::Open => "Open",
            Self::Closed => "Closed",
            Self::All => "All",
        }
    }

    /// Whether an issue in `state` is listed under this filter.
    pub fn matches(self, state: &str) -> (r: bool)
        ensures
            r == self.accepts(state@),
    {
        match self {
            Self::All => true,
            Self::Open => str_eq(state, "open"),
            Self::Closed => str_eq(state, "closed"),
        }
    }
}

/// Job list status tabs.
#[derive(Debug, Clone, Copy, PartialEq, Eq, Structural)]
pub enum JobStatus {
    All,
    Started,
    Succeeded,
    Failed,
}

impl Default for JobStatus {
    fn default() -> (r: Self)
        ensures
            r == JobStatus::All,
    {
        JobStatus::All
    }
}

impl JobStatus {
    /// Tab caption.
    pub open spec fn label_text(self) -> Seq<char> {
        match self {
            JobStatus::All => "All"@,
            JobStatus::Started => "Started"@,
            JobStatus::Succeeded => "Succeeded"@,
            JobStatus::Failed => "Failed"@,
        }
    }

    /// The job status string this filter selects.
    pub open spec fn accepts(self, status: Seq<char>) -> bool {
        match self {
            JobStatus::All => true,
            JobStatus::Started => status == "started"@,
            JobStatus::Succeeded => status == "succeeded"@,
            JobStatus::Failed => status == "failed"@,
        }
    }

    /// Tab caption.
    pub fn label(self) -> (r: &'static str)
        ensures
            r@ == self.label_text(),
    {
        match self {
            Self::All => "All",
            Self::Started => "Started",
            Self::Succeeded => "Succeeded",
            Self::Failed => "Failed",
        }
    }

    /// Whether a job whose latest run has `status` is listed under this filter.
    pub fn matches(self, status: &str) -> (r: bool)
        ensures
            r == self.accepts(status@),
    {
        match self {
            Self::All => true,
            Self::Started => str_eq(status, "started"),
            Self::Succeeded => str_eq(status, "succeeded"),
            Self::Failed => str_eq(status, "failed"),
        }
    }
}


/// Repo browser state: tab, directory, selections and filters.
#[derive(Debug, Clone)]
pub struct RepoUi {
    pub tab: Tab,
    pub rid: String,
    pub head_oid: String,
    /// Current directory relative to repo root (`""` = root).
    pub cwd: String,
    pub dir_entries: Vec<FileRow>,
    pub selected_file: Option<String>,
    pub file_content: String,
    pub file_is_md: bool,
    pub file_error: Option<String>,
    pub selected_commit: Option<String>,
    pub commit_paths: Vec<String>,
    pub selected_diff_path: Option<String>,
    pub diff_text: String,
    pub commit_error: Option<String>,
    pub selected_patch: Option<String>,
    pub patch_base: String,
    pub patch_head: String,
    pub patch_paths: Vec<String>,
    pub selected_patch_diff_path: Option<String>,
    pub patch_diff_text: String,
    pub patch_error: Option<String>,
    pub selected_issue: Option<String>,
    pub selected_job: Option<String>,
    /// Set when the active Patches / Issues / Jobs tab is pressed again.
    pub reload_requested: bool,
    /// Status tab for the Patches list.
    pub patch_status: PatchStatus,
    /// Status tab for the Issues list.
    pub issue_status: IssueStatus,
    /// Status tab for the Jobs list.
    pub job_status: JobStatus,
    /// Substring filter for the Patches tab list.
    pub patch_filter: String,
    /// Substring filter for the Issues tab list.
    pub issue_filter: String,
    /// Set when tab or status filters change so the host can persist prefs.
    pub prefs_dirty: bool,
}

impl RepoUi {
    /// Every field other than the repo identity (`rid`, `head_oid`) and the
    /// directory listing holds its initial value.
    pub open spec fn is_fresh(self) -> bool {
        &&& self.tab == Tab::Files
        &&& self.cwd@.len() == 0
        &&& self.selected_file is None
        &&& self.file_content@.len() == 0
        &&& !self.file_is_md
        &&& self.file_error is None
        &&& self.selected_commit is None
        &&& self.commit_paths@.len() == 0
        &&& self.selected_diff_path is None
        &&& self.diff_text@.len() == 0
        &&& self.commit_error is None
        &&& self.patch_selection_cleared()
        &&& self.selected_issue is None
        &&& self.selected_job is None
        &&& !self.reload_requested
        &&& self.patch_status == PatchStatus::Open
        &&& self.issue_status == IssueStatus::Open
        &&& self.job_status == JobStatus::All
        &&& self.patch_filter@.len() == 0
        &&& self.issue_filter@.len() == 0
        &&& !self.prefs_dirty
    }

    /// No patch is selected and nothing of a previous selection is left.
    pub open spec fn patch_selection_cleared(self) -> bool {
        &&& self.selected_patch is None
        &&& self.patch_base@.len() == 0
        &&& self.patch_head@.len() == 0
        &&& self.patch_paths@.len() == 0
        &&& self.selected_patch_diff_path is None
        &&& self.patch_diff_text@.len() == 0
        &&& self.patch_error is None
    }

    /// `self` and `other` agree on every field outside the patch selection.
    pub open spec fn same_outside_patch(self, other: RepoUi) -> bool {
        &&& self.tab == other.tab
        &&& self.rid == other.rid
        &&& self.head_oid == other.head_oid
        &&& self.cwd == other.cwd
        &&& self.dir_entries == other.dir_entries
        &&& self.selected_file == other.selected_file
        &&& self.file_content == other.file_content
        &&& self.file_is_md == other.file_is_md
        &&& self.file_error == other.file_error
        &&& self.selected_commit == other.selected_commit
        &&& self.commit_paths == other.commit_paths
        &&& self.selected_diff_path == other.selected_diff_path
        &&& self.diff_text == other.diff_text
        &&& self.commit_error == other.commit_error
        &&& self.selected_issue == other.selected_issue
        &&& self.selected_job == other.selected_job
        &&& self.reload_requested == other.reload_requested
        &&& self.patch_status == other.patch_status
        &&& self.issue_status == other.issue_status
        &&& self.job_status == other.job_status
        &&& self.patch_filter == other.patch_filter
        &&& self.issue_filter == other.issue_filter
        &&& self.prefs_dirty == other.prefs_dirty
    }
}

impl Default for RepoUi {
    fn default() -> (r: Self)
        ensures
            r.is_fresh(),
            r.rid@.len() == 0,
            r.head_oid@.len() == 0,
            r.dir_entries@.len() == 0,
    {
        RepoUi {
            tab: Tab::Files,
            rid: String::new(),
            head_oid: String::new(),
            cwd: String::new(),
            dir_entries: Vec::new(),
            selected_file: None,
            file_content: String::new(),
            file_is_md: false,
            file_error: None,
            selected_commit: None,
            commit_paths: Vec::new(),
            selected_diff_path: None,
            diff_text: String::new(),
            commit_error: None,
            selected_patch: None,
            patch_base: String::new(),
            patch_head: String::new(),
            patch_paths: Vec::new(),
            selected_patch_diff_path: None,
            patch_diff_text: String::new(),
            patch_error: None,
            selected_issue: None,
            selected_job: None,
            reload_requested: false,
            patch_status: PatchStatus::Open,
            issue_status: IssueStatus::Open,
            job_status: JobStatus::All,
            patch_filter: String::new(),
            issue_filter: String::new(),
            prefs_dirty: false,
        }
    }
}

/// Some patch in `patches` has id `id`.
pub open spec fn has_patch(patches: Seq<PatchRow>, id: Seq<char>) -> bool {
    exists|k: int| 0 <= k < patches.len() && (#[trigger] patches[k]).id@ == id
}

/// Some issue in `issues` has id `id`.
pub open spec fn has_issue(issues: Seq<IssueRow>, id: Seq<char>) -> bool {
    exists|k: int| 0 <= k < issues.len() && (#[trigger] issues[k]).id@ == id
}

/// Some job in `jobs` has id `id`.
pub open spec fn has_job(jobs: Seq<JobRow>, id: Seq<char>) -> bool {
    exists|k: int| 0 <= k < jobs.len() && (#[trigger] jobs[k]).id@ == id
}

/// Some patch has id `id` and is listed under filter `s`.
pub open spec fn has_patch_in(patches: Seq<PatchRow>, id: Seq<char>, s: PatchStatus) -> bool {
    exists|k: int|
        0 <= k < patches.len() && (#[trigger] patches[k]).id@ == id && s.accepts(patches[k].state@)
}

/// Some issue has id `id` and is listed under filter `s`.
pub open spec fn has_issue_in(issues: Seq<IssueRow>, id: Seq<char>, s: IssueStatus) -> bool {
    exists|k: int|
        0 <= k < issues.len() && (#[trigger] issues[k]).id@ == id && s.accepts(issues[k].state@)
}

/// Some job has id `id` and is listed under filter `s`.
pub open spec fn has_job_in(jobs: Seq<JobRow>, id: Seq<char>, s: JobStatus) -> bool {
    exists|k: int|
        0 <= k < jobs.len() && (#[trigger] jobs[k]).id@ == id && s.accepts(jobs[k].status@)
}

fn find_patch(patches: &[PatchRow], id: &str, s: PatchStatus) -> (r: bool)
    ensures
        r == has_patch_in(patches@, id@, s),
{
    let mut k: usize = 0;
    while k < patches.len()
        invariant
            k <= patches@.len(),
            forall|j: int|
                0 <= j < k ==> !((#[trigger] patches@[j]).id@ == id@ && s.accepts(
                    patches@[j].state@,
                )),
        decreases patches@.len() - k,
    {
        if str_eq(patches[k].id.as_str(), id) && s.matches(patches[k].state.as_str()) {
            return true;
        }
        k += 1;
    }
    false
}

fn find_issue(issues: &[IssueRow], id: &str, s: IssueStatus) -> (r: bool)
    ensures
        r == has_issue_in(issues@, id@, s),
{
    let mut k: usize = 0;
    while k < issues.len()
        invariant
            k <= issues@.len(),
            forall|j: int|
                0 <= j < k ==> !((#[trigger] issues@[j]).id@ == id@ && s.accepts(
                    issues@[j].state@,
                )),
        decreases issues@.len() - k,
    {
        if str_eq(issues[k].id.as_str(), id) && s.matches(issues[k].state.as_str()) {
            return true;
        }
        k += 1;
    }
    false
}

fn find_job(jobs: &[JobRow], id: &str, s: JobStatus) -> (r: bool)
    ensures
        r == has_job_in(jobs@, id@, s),
{
    let mut k: usize = 0;
    while k < jobs.len()
        invariant
            k <= jobs@.len(),
            forall|j: int|
                0 <= j < k ==> !((#[trigger] jobs@[j]).id@ == id@ && s.accepts(jobs@[j].status@)),
        decreases jobs@.len() - k,
    {
        if str_eq(jobs[k].id.as_str(), id) && s.matches(jobs[k].status.as_str()) {
            return true;
        }
        k += 1;
    }
    false
}

/// `after` is `before` with the selections that `patches`, `issues` and
/// `jobs` no longer hold dropped (a dropped patch takes its base, head,
/// paths, diff and error with it); nothing else changes.
pub open spec fn pruned(
    before: RepoUi,
    after: RepoUi,
    patches: Seq<PatchRow>,
    issues: Seq<IssueRow>,
    jobs: Seq<JobRow>,
) -> bool {
    let kept = RepoUi {
        selected_issue: match before.selected_issue {
            Some(id) if !has_issue(issues, id@) => None,
            other => other,
        },
        selected_job: match before.selected_job {
            Some(id) if !has_job(jobs, id@) => None,
            other => other,
        },
        ..before
    };
    match before.selected_patch {
        Some(id) if !has_patch(patches, id@) => after.patch_selection_cleared() && after.same_outside_patch(
            kept,
        ),
        _ => after == kept,
    }
}

impl RepoUi {
    /// Start browsing `rid` at `head_oid` with `files` as the root listing;
    /// every other field goes back to its initial value.
    pub fn reset_for(&mut self, rid: &str, head_oid: &str, files: &[FileRow])
        ensures
            final(self).is_fresh(),
            final(self).rid@ == rid@,
            final(self).head_oid@ == head_oid@,
            final(self).dir_entries@ == files@,
    {
        let mut fresh = RepoUi::default();
        fresh.rid = owned(rid);
        fresh.head_oid = owned(head_oid);
        fresh.dir_entries = dup_slice(files);
        *self = fresh;
    }

    /// Drop COB selections that no longer exist after a reload.
    pub fn prune_cob_selections(&mut self, patches: &[PatchRow], issues: &[IssueRow], jobs: &[JobRow])
        ensures
            pruned(*old(self), *final(self), patches@, issues@, jobs@),
    {
        let drop_patch = match &self.selected_patch {
            Some(id) => !find_patch(patches, id.as_str(), PatchStatus::All),
            None => false,
        };
        if drop_patch {
            self.clear_patch_selection();
        }
        let drop_issue = match &self.selected_issue {
            Some(id) => !find_issue(issues, id.as_str(), IssueStatus::All),
            None => false,
        };
        if drop_issue {
            self.selected_issue = None;
        }
        let drop_job = match &self.selected_job {
            Some(id) => !find_job(jobs, id.as_str(), JobStatus::All),
            None => false,
        };
        if drop_job {
            self.selected_job = None;
        }
    }

    /// Path of `name` inside the current directory.
    pub fn join_cwd(&self, name: &str) -> (r: String)
        ensures
            r@ == if self.cwd@.len() == 0 {
                name@
            } else {
                self.cwd@ + seq!['/'] + name@
            },
    {
        if self.cwd.as_str().is_empty() {
            owned(name)
        } else {
            let mut s = self.cwd.clone();
            crate::text::push_char(&mut s, '/');
            s.append(name);
            s
        }
    }

    /// Forget the selected patch and everything loaded for it.
    pub fn clear_patch_selection(&mut self)
        ensures
            final(self).patch_selection_cleared(),
            final(self).same_outside_patch(*old(self)),
    {
        self.selected_patch = None;
        self.patch_base = String::new();
        self.patch_head = String::new();
        self.patch_paths = Vec::new();
        self.selected_patch_diff_path = None;
        self.patch_diff_text = String::new();
        self.patch_error = None;
    }
}

impl RepoUi {
    /// A press on the tab button for `tab`: switch to it (marking the prefs
    /// dirty), or, when the active Patches / Issues / Jobs tab is pressed
    /// again, request a reload.
    pub fn press_tab(&mut self, tab: Tab)
        ensures
            old(self).tab == tab && (tab == Tab::Patches || tab == Tab::Issues || tab == Tab::Jobs)
                ==> *final(self) == (RepoUi { reload_requested: true, ..*old(self) }),
            old(self).tab == tab && (tab == Tab::Files || tab == Tab::Commits) ==> *final(self)
                == *old(self),
            old(self).tab != tab ==> *final(self) == (RepoUi {
                tab,
                prefs_dirty: true,
                ..*old(self)
            }),
    {
        if self.tab == tab {
            match tab {
                Tab::Patches | Tab::Issues | Tab::Jobs => {
                    self.reload_requested = true;
                },
                _ => {},
            }
        } else {
            self.tab = tab;
            self.prefs_dirty = true;
        }
    }

    /// Pick patch filter `s`; a selected patch that the new filter hides is
    /// dropped.
    pub fn set_patch_status(&mut self, s: PatchStatus, patches: &[PatchRow])
        ensures
            old(self).patch_status == s ==> *final(self) == *old(self),
            old(self).patch_status != s ==> {
                &&& final(self).patch_status == s
                &&& final(self).prefs_dirty
                &&& match old(self).selected_patch {
                    Some(id) if !has_patch_in(patches@, id@, s) => final(self).patch_selection_cleared()
                        && final(self).same_outside_patch(
                        RepoUi { patch_status: s, prefs_dirty: true, ..*old(self) },
                    ),
                    _ => *final(self) == (RepoUi { patch_status: s, prefs_dirty: true, ..*old(self) }),
                }
            },
    {
        if self.patch_status != s {
            self.patch_status = s;
            self.prefs_dirty = true;
            let drop = match &self.selected_patch {
                Some(id) => !find_patch(patches, id.as_str(), s),
                None => false,
            };
            if drop {
                self.clear_patch_selection();
            }
        }
    }

    /// Pick issue filter `s`; a selected issue that the new filter hides is
    /// dropped.
    pub fn set_issue_status(&mut self, s: IssueStatus, issues: &[IssueRow])
        ensures
            old(self).issue_status == s ==> *final(self) == *old(self),
            old(self).issue_status != s ==> *final(self) == (RepoUi {
                issue_status: s,
                prefs_dirty: true,
                selected_issue: match old(self).selected_issue {
                    Some(id) if !has_issue_in(issues@, id@, s) => None,
                    other => other,
                },
                ..*old(self)
            }),
    {
        if self.issue_status != s {
            self.issue_status = s;
            self.prefs_dirty = true;
            let drop = match &self.selected_issue {
                Some(id) => !find_issue(issues, id.as_str(), s),
                None => false,
            };
            if drop {
                self.selected_issue = None;
            }
        }
    }

    /// Pick job filter `s`; a selected job that the new filter hides is dropped.
    pub fn set_job_status(&mut self, s: JobStatus, jobs: &[JobRow])
        ensures
            old(self).job_status == s ==> *final(self) == *old(self),
            old(self).job_status != s ==> *final(self) == (RepoUi {
                job_status: s,
                prefs_dirty: true,
                selected_job: match old(self).selected_job {
                    Some(id) if !has_job_in(jobs@, id@, s) => None,
                    other => other,
                },
                ..*old(self)
            }),
    {
        if self.job_status != s {
            self.job_status = s;
            self.prefs_dirty = true;
            let drop = match &self.selected_job {
                Some(id) => !find_job(jobs, id.as_str(), s),
                None => false,
            };
            if drop {
                self.selected_job = None;
            }
        }
    }

    /// Back from a selected commit to the commit list.
    pub fn clear_commit_selection(&mut self)
        ensures
            *final(self) == (RepoUi {
                selected_commit: None,
                selected_diff_path: None,
                diff_text: final(self).diff_text,
                commit_paths: final(self).commit_paths,
                commit_error: None,
                ..*old(self)
            }),
            final(self).diff_text@.len() == 0,
            final(self).commit_paths@.len() == 0,
    {
        self.selected_commit = None;
        self.selected_diff_path = None;
        self.diff_text = String::new();
        self.commit_paths = Vec::new();
        self.commit_error = None;
    }
}

/// The first 8 bytes of a UUID-like id (all of it when shorter).
pub fn short_uuid(id: &str) -> (r: &str)
    requires
        id.spec_bytes().len() > 8 ==> vstd::utf8::is_char_boundary(id.spec_bytes(), 8),
    ensures
        r.spec_bytes() == if id.spec_bytes().len() > 8 {
            id.spec_bytes().take(8)
        } else {
            id.spec_bytes()
        },
{
    short_prefix(id, 8)
}

/// The first 7 bytes of an object id (all of it when shorter).
pub fn short_oid_display(oid: &str) -> (r: &str)
    requires
        oid.spec_bytes().len() > 7 ==> vstd::utf8::is_char_boundary(oid.spec_bytes(), 7),
    ensures
        r.spec_bytes() == if oid.spec_bytes().len() > 7 {
            oid.spec_bytes().take(7)
        } else {
            oid.spec_bytes()
        },
{
    short_prefix(oid, 7)
}

/// The first `n` bytes of `s`, or all of `s` when it is no longer.
pub fn short_prefix(s: &str, n: usize) -> (r: &str)
    requires
        s.spec_bytes().len() > n ==> vstd::utf8::is_char_boundary(s.spec_bytes(), n as int),
    ensures
        r.spec_bytes() == if s.spec_bytes().len() > n {
            s.spec_bytes().take(n as int)
        } else {
            s.spec_bytes()
        },
{
    if s.as_bytes().len() > n {
        proof {
            vstd::utf8::encode_utf8_valid_utf8(s@);
            vstd::utf8::is_char_boundary_start_end_of_seq(s.spec_bytes());
        }
        let r = crate::text::byte_slice(s, 0, n);
        assert(s.spec_bytes().take(n as int) =~= s.spec_bytes().subrange(0, n as int));
        r
    } else {
        s
    }
}

/// Heuristic: the text is probably Markdown.
pub fn looks_like_md(text: &str) -> (r: bool)
    ensures
        r == (has_substring(text@, "\n"@) || has_substring(text@, "```"@) || has_substring(
            text@,
            "**"@,
        ) || (text@.len() > 0 && text@[0] == '#') || has_substring(text@, "]("@)),
{
    contains(text, "\n") || contains(text, "```") || contains(text, "**")
        || crate::text::starts_with_char(text, '#') || contains(text, "](")
}

/// `q` is empty or occurs in the lowercase form of one of the patch's fields.
pub open spec fn patch_query_match(p: PatchRow, q: Seq<char>) -> bool {
    ||| q.len() == 0
    ||| has_substring(lowercase(p.title@), q)
    ||| has_substring(lowercase(p.id@), q)
    ||| has_substring(lowercase(p.short_id@), q)
    ||| has_substring(lowercase(p.author@), q)
    ||| has_substring(lowercase(p.state@), q)
    ||| has_substring(lowercase(p.description@), q)
    ||| has_substring(lowercase(p.head@), q)
    ||| has_substring(lowercase(p.base@), q)
}

/// `q` is empty or occurs in the lowercase form of one of the issue's fields.
pub open spec fn issue_query_match(i: IssueRow, q: Seq<char>) -> bool {
    ||| q.len() == 0
    ||| has_substring(lowercase(i.title@), q)
    ||| has_substring(lowercase(i.id@), q)
    ||| has_substring(lowercase(i.short_id@), q)
    ||| has_substring(lowercase(i.author@), q)
    ||| has_substring(lowercase(i.state@), q)
    ||| has_substring(lowercase(i.description@), q)
}

/// The searchable fields of a patch: title, id, short id, author, state,
/// description, head and base.
pub open spec fn patch_fields(p: PatchRow) -> Seq<Seq<char>> {
    seq![p.title@, p.id@, p.short_id@, p.author@, p.state@, p.description@, p.head@, p.base@]
}

/// The searchable fields of an issue: title, id, short id, author, state and
/// description.
pub open spec fn issue_fields(i: IssueRow) -> Seq<Seq<char>> {
    seq![i.title@, i.id@, i.short_id@, i.author@, i.state@, i.description@]
}

/// `q` occurs in the lowercase form of one of `fields`.
pub open spec fn some_field_has(fields: Seq<Seq<char>>, q: Seq<char>) -> bool {
    exists|f: int| 0 <= f < fields.len() && #[trigger] has_substring(lowercase(fields[f]), q)
}

/// A patch matches a search exactly when the search is empty or it occurs
/// in one of the patch's fields, lowercased: in particular a patch is found
/// by words of its title and of its description.
pub proof fn lemma_patch_search(p: PatchRow, q: Seq<char>)
    ensures
        patch_query_match(p, q) <==> (q.len() == 0 || some_field_has(patch_fields(p), q)),
        q.len() == 0 ==> patch_query_match(p, q),
        has_substring(lowercase(p.title@), q) ==> patch_query_match(p, q),
        has_substring(lowercase(p.id@), q) ==> patch_query_match(p, q),
        has_substring(lowercase(p.short_id@), q) ==> patch_query_match(p, q),
        has_substring(lowercase(p.author@), q) ==> patch_query_match(p, q),
        has_substring(lowercase(p.state@), q) ==> patch_query_match(p, q),
        has_substring(lowercase(p.description@), q) ==> patch_query_match(p, q),
        has_substring(lowercase(p.head@), q) ==> patch_query_match(p, q),
        has_substring(lowercase(p.base@), q) ==> patch_query_match(p, q),
{
    let fs = patch_fields(p);
    if some_field_has(fs, q) {
        let f = choose|f: int| 0 <= f < fs.len() && #[trigger] has_substring(lowercase(fs[f]), q);
        assert(0 <= f < 8);
    }
    if patch_query_match(p, q) && q.len() != 0 {
        if has_substring(lowercase(p.title@), q) {
            assert(has_substring(lowercase(fs[0]), q));
        } else if has_substring(lowercase(p.id@), q) {
            assert(has_substring(lowercase(fs[1]), q));
        } else if has_substring(lowercase(p.short_id@), q) {
            assert(has_substring(lowercase(fs[2]), q));
        } else if has_substring(lowercase(p.author@), q) {
            assert(has_substring(lowercase(fs[3]), q));
        } else if has_substring(lowercase(p.state@), q) {
            assert(has_substring(lowercase(fs[4]), q));
        } else if has_substring(lowercase(p.description@), q) {
            assert(has_substring(lowercase(fs[5]), q));
        } else if has_substring(lowercase(p.head@), q) {
            assert(has_substring(lowercase(fs[6]), q));
        } else {
            assert(has_substring(lowercase(fs[7]), q));
        }
    }
}

/// An issue matches a search exactly when the search is empty or it occurs
/// in one of the issue's fields, lowercased: in particular an issue is found
/// by words of its title and of its description.
pub proof fn lemma_issue_search(i: IssueRow, q: Seq<char>)
    ensures
        issue_query_match(i, q) <==> (q.len() == 0 || some_field_has(issue_fields(i), q)),
        q.len() == 0 ==> issue_query_match(i, q),
        has_substring(lowercase(i.title@), q) ==> issue_query_match(i, q),
        has_substring(lowercase(i.id@), q) ==> issue_query_match(i, q),
        has_substring(lowercase(i.short_id@), q) ==> issue_query_match(i, q),
        has_substring(lowercase(i.author@), q) ==> issue_query_match(i, q),
        has_substring(lowercase(i.state@), q) ==> issue_query_match(i, q),
        has_substring(lowercase(i.description@), q) ==> issue_query_match(i, q),
{
    let fs = issue_fields(i);
    if some_field_has(fs, q) {
        let f = choose|f: int| 0 <= f < fs.len() && #[trigger] has_substring(lowercase(fs[f]), q);
        assert(0 <= f < 6);
    }
    if issue_query_match(i, q) && q.len() != 0 {
        if has_substring(lowercase(i.title@), q) {
            assert(has_substring(lowercase(fs[0]), q));
        } else if has_substring(lowercase(i.id@), q) {
            assert(has_substring(lowercase(fs[1]), q));
        } else if has_substring(lowercase(i.short_id@), q) {
            assert(has_substring(lowercase(fs[2]), q));
        } else if has_substring(lowercase(i.author@), q) {
            assert(has_substring(lowercase(fs[3]), q));
        } else if has_substring(lowercase(i.state@), q) {
            assert(has_substring(lowercase(fs[4]), q));
        } else {
            assert(has_substring(lowercase(fs[5]), q));
        }
    }
}

/// `field` lowercased contains `q`.
fn lower_contains(field: &String, q: &str) -> (r: bool)
    ensures
        r == has_substring(lowercase(field@), q@),
{
    let l = to_lowercase(field.as_str());
    contains(l.as_str(), q)
}

/// Search match for the Patches list (`q` already lowercase).
pub fn patch_matches(p: &PatchRow, q: &str) -> (r: bool)
    ensures
        r == patch_query_match(*p, q@),
{
    if q.is_empty() {
        return true;
    }
    lower_contains(&p.title, q) || lower_contains(&p.id, q) || lower_contains(&p.short_id, q)
        || lower_contains(&p.author, q) || lower_contains(&p.state, q) || lower_contains(
        &p.description,
        q,
    ) || lower_contains(&p.head, q) || lower_contains(&p.base, q)
}

/// Search match for the Issues list (`q` already lowercase).
pub fn issue_matches(i: &IssueRow, q: &str) -> (r: bool)
    ensures
        r == issue_query_match(*i, q@),
{
    if q.is_empty() {
        return true;
    }
    lower_contains(&i.title, q) || lower_contains(&i.id, q) || lower_contains(&i.short_id, q)
        || lower_contains(&i.author, q) || lower_contains(&i.state, q) || lower_contains(
        &i.description,
        q,
    )
}

/// The search text of a list filter: trimmed, then lowercased.
pub open spec fn query_of(filter: Seq<char>) -> Seq<char> {
    lowercase(crate::text::trim_ws(filter))
}

/// `idx` lists, in increasing order, exactly the positions `k < n` where
/// `pred(k)` holds.
pub open spec fn lists_exactly(idx: Seq<usize>, n: int, pred: spec_fn(int) -> bool) -> bool {
    &&& forall|i: int, j: int| 0 <= i < j < idx.len() ==> idx[i] < idx[j]
    &&& forall|i: int| 0 <= i < idx.len() ==> idx[i] < n && pred(idx[i] as int)
    &&& forall|k: int|
        0 <= k < n && #[trigger] pred(k) ==> exists|i: int| 0 <= i < idx.len() && #[trigger] idx[i]
            == k
}

/// Number of positions `k < n` where `pred(k)` holds.
pub open spec fn count_where(n: int, pred: spec_fn(int) -> bool) -> nat
    decreases n,
{
    if n <= 0 {
        0
    } else {
        count_where(n - 1, pred) + if pred(n - 1) {
            1nat
        } else {
            0nat
        }
    }
}

/// The Patches list under `status` and search `filter`: how many patches the
/// status tab holds, and the positions of those that also match the search.
pub fn patch_listing(patches: &[PatchRow], status: PatchStatus, filter: &str) -> (r: (
    usize,
    Vec<usize>,
))
    ensures
        r.0 == count_where(patches@.len() as int, |k: int| status.accepts(patches@[k].state@)),
        lists_exactly(
            r.1@,
            patches@.len() as int,
            |k: int|
                status.accepts(patches@[k].state@) && patch_query_match(
                    patches@[k],
                    query_of(filter@),
                ),
        ),
        forall|k: int|
            0 <= k < patches@.len() && status.accepts(patches@[k].state@) && (query_of(filter@).len() == 0
                || some_field_has(patch_fields(patches@[k]), query_of(filter@))) ==> r.1@.contains(k as usize),
        forall|i: int|
            0 <= i < r.1@.len() ==> status.accepts(patches@[r.1@[i] as int].state@) && (query_of(filter@).len()
                == 0 || some_field_has(patch_fields(patches@[r.1@[i] as int]), query_of(filter@))),
{
    let q = to_lowercase(crate::text::trim(filter));
    let mut count: usize = 0;
    let mut out: Vec<usize> = Vec::new();
    let mut k: usize = 0;
    while k < patches.len()
        invariant
            k <= patches@.len(),
            q@ == query_of(filter@),
            count == count_where(k as int, |j: int| status.accepts(patches@[j].state@)),
            count <= k,
            forall|i: int, j: int| 0 <= i < j < out@.len() ==> out@[i] < out@[j],
            forall|i: int| 0 <= i < out@.len() ==> out@[i] < k && status.accepts(patches@[out@[i] as int].state@) && patch_query_match(patches@[#[trigger] out@[i] as int], query_of(filter@)),
            forall|m: int|
                0 <= m < k && status.accepts(patches@[m].state@) && #[trigger] patch_query_match(patches@[m], query_of(filter@)) ==> exists|i: int|
                    0 <= i < out@.len() && #[trigger] out@[i] == m,
        decreases patches@.len() - k,
    {
        let in_status = status.matches(patches[k].state.as_str());
        if in_status {
            count += 1;
            if patch_matches(&patches[k], q.as_str()) {
                let ghost old_out = out@;
                out.push(k);
                proof {
                    assert(out@[out@.len() - 1] == k);
                    assert forall|m: int|
                        0 <= m < k && status.accepts(patches@[m].state@) && #[trigger] patch_query_match(
                            patches@[m],
                            query_of(filter@),
                        ) implies exists|i: int| 0 <= i < out@.len() && #[trigger] out@[i] == m by {
                        let i = choose|i: int| 0 <= i < old_out.len() && #[trigger] old_out[i] == m;
                        assert(out@[i] == old_out[i]);
                    }
                }
            }
        }
        proof {
            let ghost in_tab = |j: int| status.accepts(patches@[j].state@);
            assert(count_where(k + 1, in_tab) == count_where(k as int, in_tab) + if in_tab(
                k as int,
            ) {
                1nat
            } else {
                0nat
            });
        }
        k += 1;
    }
    proof {
        let q = query_of(filter@);
        assert forall|k: int|
            0 <= k < patches@.len() && status.accepts(patches@[k].state@) && (q.len() == 0 || some_field_has(
                patch_fields(patches@[k]),
                q,
            )) implies out@.contains(k as usize) by {
            lemma_patch_search(patches@[k], q);
            assert(patch_query_match(patches@[k], q));
            let i = choose|i: int| 0 <= i < out@.len() && #[trigger] out@[i] == k;
            assert(out@[i] == k as usize);
        }
        assert forall|i: int| 0 <= i < out@.len() implies status.accepts(patches@[out@[i] as int].state@) && (q.len()
            == 0 || some_field_has(patch_fields(patches@[out@[i] as int]), q)) by {
            lemma_patch_search(patches@[out@[i] as int], q);
        }
    }
    (count, out)
}

/// The Issues list under `status` and search `filter`: how many issues the
/// status tab holds, and the positions of those that also match the search.
pub fn issue_listing(issues: &[IssueRow], status: IssueStatus, filter: &str) -> (r: (
    usize,
    Vec<usize>,
))
    ensures
        r.0 == count_where(issues@.len() as int, |k: int| status.accepts(issues@[k].state@)),
        lists_exactly(
            r.1@,
            issues@.len() as int,
            |k: int|
                status.accepts(issues@[k].state@) && issue_query_match(
                    issues@[k],
                    query_of(filter@),
                ),
        ),
        forall|k: int|
            0 <= k < issues@.len() && status.accepts(issues@[k].state@) && (query_of(filter@).len() == 0
                || some_field_has(issue_fields(issues@[k]), query_of(filter@))) ==> r.1@.contains(k as usize),
        forall|i: int|
            0 <= i < r.1@.len() ==> status.accepts(issues@[r.1@[i] as int].state@) && (query_of(filter@).len()
                == 0 || some_field_has(issue_fields(issues@[r.1@[i] as int]), query_of(filter@))),
{
    let q = to_lowercase(crate::text::trim(filter));
    let mut count: usize = 0;
    let mut out: Vec<usize> = Vec::new();
    let mut k: usize = 0;
    while k < issues.len()
        invariant
            k <= issues@.len(),
            q@ == query_of(filter@),
            count == count_where(k as int, |j: int| status.accepts(issues@[j].state@)),
            count <= k,
            forall|i: int, j: int| 0 <= i < j < out@.len() ==> out@[i] < out@[j],
            forall|i: int| 0 <= i < out@.len() ==> out@[i] < k && status.accepts(issues@[out@[i] as int].state@) && issue_query_match(issues@[#[trigger] out@[i] as int], query_of(filter@)),
            forall|m: int|
                0 <= m < k && status.accepts(issues@[m].state@) && #[trigger] issue_query_match(issues@[m], query_of(filter@)) ==> exists|i: int|
                    0 <= i < out@.len() && #[trigger] out@[i] == m,
        decreases issues@.len() - k,
    {
        let in_status = status.matches(issues[k].state.as_str());
        if in_status {
            count += 1;
            if issue_matches(&issues[k], q.as_str()) {
                let ghost old_out = out@;
                out.push(k);
                proof {
                    assert(out@[out@.len() - 1] == k);
                    assert forall|m: int|
                        0 <= m < k && status.accepts(issues@[m].state@) && #[trigger] issue_query_match(
                            issues@[m],
                            query_of(filter@),
                        ) implies exists|i: int| 0 <= i < out@.len() && #[trigger] out@[i] == m by {
                        let i = choose|i: int| 0 <= i < old_out.len() && #[trigger] old_out[i] == m;
                        assert(out@[i] == old_out[i]);
                    }
                }
            }
        }
        proof {
            let ghost in_tab = |j: int| status.accepts(issues@[j].state@);
            assert(count_where(k + 1, in_tab) == count_where(k as int, in_tab) + if in_tab(
                k as int,
            ) {
                1nat
            } else {
                0nat
            });
        }
        k += 1;
    }
    proof {
        let q = query_of(filter@);
        assert forall|k: int|
            0 <= k < issues@.len() && status.accepts(issues@[k].state@) && (q.len() == 0 || some_field_has(
                issue_fields(issues@[k]),
                q,
            )) implies out@.contains(k as usize) by {
            lemma_issue_search(issues@[k], q);
            assert(issue_query_match(issues@[k], q));
            let i = choose|i: int| 0 <= i < out@.len() && #[trigger] out@[i] == k;
            assert(out@[i] == k as usize);
        }
        assert forall|i: int| 0 <= i < out@.len() implies status.accepts(issues@[out@[i] as int].state@) && (q.len()
            == 0 || some_field_has(issue_fields(issues@[out@[i] as int]), q)) by {
            lemma_issue_search(issues@[out@[i] as int], q);
        }
    }
    (count, out)
}

/// The Jobs list under `status`: positions of the jobs the tab shows.
pub fn job_listing(jobs: &[JobRow], status: JobStatus) -> (r: Vec<usize>)
    ensures
        lists_exactly(r@, jobs@.len() as int, |k: int| status.accepts(jobs@[k].status@)),
{
    let mut out: Vec<usize> = Vec::new();
    let mut k: usize = 0;
    while k < jobs.len()
        invariant
            k <= jobs@.len(),
            forall|i: int, j: int| 0 <= i < j < out@.len() ==> out@[i] < out@[j],
            forall|i: int| 0 <= i < out@.len() ==> out@[i] < k && status.accepts(jobs@[#[trigger] out@[i] as int].status@),
            forall|m: int|
                0 <= m < k && status.accepts(#[trigger] jobs@[m].status@) ==> exists|i: int|
                    0 <= i < out@.len() && #[trigger] out@[i] == m,
        decreases jobs@.len() - k,
    {
        if status.matches(jobs[k].status.as_str()) {
            let ghost old_out = out@;
            out.push(k);
            proof {
                assert(out@[out@.len() - 1] == k);
                assert forall|m: int|
                    0 <= m < k && status.accepts(#[trigger] jobs@[m].status@) implies exists|i: int|
                        0 <= i < out@.len() && #[trigger] out@[i] == m by {
                    let i = choose|i: int| 0 <= i < old_out.len() && #[trigger] old_out[i] == m;
                    assert(out@[i] == old_out[i]);
                }
            }
        }
        k += 1;
    }
    out
}

/// The directory that contains `path` (`""` for a top-level entry).
pub open spec fn parent_of(path: Seq<char>) -> Seq<char> {
    match crate::text::last_index_of(path, '/') {
        Some(i) => path.take(i),
        None => Seq::empty(),
    }
}

/// The directory that contains `path` (`""` for a top-level entry).
pub fn parent_dir(path: &str) -> (r: String)
    ensures
        r@ == parent_of(path@),
{
    let v = crate::text::chars_of(path);
    match crate::text::last_index(&v, '/') {
        Some(i) => {
            proof {
                crate::text::lemma_last_index_in_range(v@, '/');
            }
            owned(path.substring_char(0, i))
        },
        None => String::new(),
    }
}

/// The text after the last `.` of `path` (all of `path` when it has none).
pub open spec fn extension_of(path: Seq<char>) -> Seq<char> {
    match crate::text::last_index_of(path, '.') {
        Some(i) => path.skip(i + 1),
        None => path,
    }
}

/// File extensions rendered as Markdown.
pub open spec fn is_md_extension(ext: Seq<char>) -> bool {
    ext == "md"@ || ext == "markdown"@ || ext == "mdown"@ || ext == "mkd"@
}

/// The file at `path` is rendered as Markdown.
pub fn is_markdown_path(path: &str) -> (r: bool)
    ensures
        r == is_md_extension(extension_of(path@)),
{
    let v = crate::text::chars_of(path);
    let n = v.len();
    let ext = match crate::text::last_index(&v, '.') {
        Some(i) => {
            proof {
                crate::text::lemma_last_index_in_range(v@, '.');
            }
            path.substring_char(i + 1, n)
        },
        None => path,
    };
    proof {
        assert(path@.skip(0) =~= path@);
    }
    str_eq(ext, "md") || str_eq(ext, "markdown") || str_eq(ext, "mdown") || str_eq(ext, "mkd")
}

/// README names tried in order when a repo is opened.
pub open spec fn readme_names() -> Seq<Seq<char>> {
    seq![
        "README.md"@,
        "README"@,
        "README.markdown"@,
        "README.txt"@,
        "README.rst"@,
        "Readme.md"@,
        "readme.md"@,
    ]
}

/// First blob entry (not a tree) whose name equals `cand` up to ASCII case.
pub open spec fn first_named(files: Seq<FileRow>, cand: Seq<char>, k: int) -> Option<int>
    decreases files.len() - k,
{
    if k < 0 || k >= files.len() {
        None
    } else if !files[k].is_tree && crate::text::eq_ascii_case(files[k].name@, cand) {
        Some(k)
    } else {
        first_named(files, cand, k + 1)
    }
}

/// The README entry to open: the first candidate name (in order) that some
/// blob entry matches, and the first such entry.
pub open spec fn readme_pick(files: Seq<FileRow>, c: int) -> Option<int>
    decreases 7 - c,
{
    if c < 0 || c >= 7 {
        None
    } else {
        match first_named(files, readme_names()[c], 0) {
            Some(k) => Some(k),
            None => readme_pick(files, c + 1),
        }
    }
}

proof fn lemma_first_named_bounds(files: Seq<FileRow>, cand: Seq<char>, k: int)
    ensures
        first_named(files, cand, k) matches Some(i) ==> 0 <= i < files.len(),
    decreases files.len() - k,
{
    if 0 <= k < files.len() {
        lemma_first_named_bounds(files, cand, k + 1);
    }
}

proof fn lemma_readme_pick_bounds(files: Seq<FileRow>, c: int)
    ensures
        readme_pick(files, c) matches Some(i) ==> 0 <= i < files.len(),
    decreases 7 - c,
{
    if 0 <= c < 7 {
        lemma_first_named_bounds(files, readme_names()[c], 0);
        lemma_readme_pick_bounds(files, c + 1);
    }
}

fn find_named(files: &[FileRow], cand: &str) -> (r: Option<usize>)
    ensures
        match r {
            Some(k) => first_named(files@, cand@, 0) == Some(k as int),
            None => first_named(files@, cand@, 0) is None,
        },
{
    let mut k: usize = 0;
    while k < files.len()
        invariant
            k <= files@.len(),
            first_named(files@, cand@, 0) == first_named(files@, cand@, k as int),
        decreases files@.len() - k,
    {
        if !files[k].is_tree && crate::text::eq_ignore_ascii_case(files[k].name.as_str(), cand) {
            return Some(k);
        }
        k += 1;
    }
    None
}

/// Position of the README blob to open on the Files tab, if the tree has one.
pub fn readme_candidate(files: &[FileRow]) -> (r: Option<usize>)
    ensures
        match r {
            Some(k) => readme_pick(files@, 0) == Some(k as int),
            None => readme_pick(files@, 0) is None,
        },
{
    let names: [&str; 7] = [
        "README.md",
        "README",
        "README.markdown",
        "README.txt",
        "README.rst",
        "Readme.md",
        "readme.md",
    ];
    let mut c: usize = 0;
    while c < 7
        invariant
            c <= 7,
            forall|j: int| 0 <= j < 7 ==> (#[trigger] names@[j])@ == readme_names()[j],
            readme_pick(files@, 0) == readme_pick(files@, c as int),
        decreases 7 - c,
    {
        if let Some(k) = find_named(files, names[c]) {
            return Some(k);
        }
        c += 1;
    }
    None
}

/// `after` is `before` on the Files tab with the README of `files` (see
/// [`readme_pick`]) selected when there is one; `name` is that README's name.
pub open spec fn readme_opened(before: RepoUi, after: RepoUi, files: Seq<FileRow>, name: Option<String>) -> bool {
    match readme_pick(files, 0) {
        Some(k) => match name {
            Some(n) => {
                &&& n@ == files[k].name@
                &&& after == (RepoUi {
                    tab: Tab::Files,
                    selected_file: after.selected_file,
                    file_error: None,
                    file_is_md: is_md_extension(extension_of(n@)),
                    ..before
                })
                &&& (after.selected_file matches Some(p) && p@ == n@)
            },
            None => false,
        },
        None => name is None && after == (RepoUi { tab: Tab::Files, ..before }),
    }
}

impl RepoUi {
    /// Show the Files tab and select the tree's README blob, if it has one;
    /// returns the README's name, whose content is then read.
    pub fn open_readme_if_present(&mut self, files: &[FileRow]) -> (r: Option<String>)
        ensures
            readme_opened(*old(self), *final(self), files@, r),
    {
        self.tab = Tab::Files;
        proof {
            lemma_readme_pick_bounds(files@, 0);
        }
        match readme_candidate(files) {
            Some(k) => {
                let name = files[k].name.clone();
                self.begin_select_file(name.as_str());
                Some(name)
            },
            None => None,
        }
    }
}

impl RepoUi {
    /// `Some(parent)` to go up to from the current directory; `None` at the root.
    pub fn parent_cwd(&self) -> (r: Option<String>)
        ensures
            match r {
                Some(p) => self.cwd@.len() > 0 && p@ == parent_of(self.cwd@),
                None => self.cwd@.len() == 0,
            },
    {
        if self.cwd.as_str().is_empty() {
            None
        } else {
            Some(parent_dir(self.cwd.as_str()))
        }
    }

    /// A directory listing for `dir` arrived: show it, or keep the current one
    /// and record the error.
    pub fn apply_dir_listing(&mut self, dir: &str, listing: Result<Vec<FileRow>, String>)
        ensures
            match listing {
                Ok(entries) => *final(self) == (RepoUi {
                    cwd: final(self).cwd,
                    dir_entries: entries,
                    file_error: None,
                    ..*old(self)
                }) && final(self).cwd@ == dir@,
                Err(e) => *final(self) == (RepoUi { file_error: Some(e), ..*old(self) }),
            },
    {
        match listing {
            Ok(entries) => {
                self.cwd = owned(dir);
                self.dir_entries = entries;
                self.file_error = None;
            },
            Err(e) => {
                self.file_error = Some(e);
            },
        }
    }

    /// Select the file at `path` (before its content is read).
    pub fn begin_select_file(&mut self, path: &str)
        ensures
            *final(self) == (RepoUi {
                selected_file: final(self).selected_file,
                file_error: None,
                file_is_md: is_md_extension(extension_of(path@)),
                ..*old(self)
            }),
            final(self).selected_file matches Some(p) && p@ == path@,
    {
        self.selected_file = Some(owned(path));
        self.file_error = None;
        self.file_is_md = is_markdown_path(path);
    }

    /// The selected file's content arrived (or reading it failed).
    pub fn apply_file_content(&mut self, content: Result<String, String>)
        ensures
            match content {
                Ok(text) => *final(self) == (RepoUi { file_content: text, ..*old(self) }),
                Err(e) => *final(self) == (RepoUi {
                    file_content: final(self).file_content,
                    file_error: Some(e),
                    ..*old(self)
                }) && final(self).file_content@.len() == 0,
            },
    {
        match content {
            Ok(text) => self.file_content = text,
            Err(e) => {
                self.file_content = String::new();
                self.file_error = Some(e);
            },
        }
    }

    /// Select commit `oid` (before its changed paths are read).
    pub fn begin_select_commit(&mut self, oid: &str)
        ensures
            *final(self) == (RepoUi {
                selected_commit: final(self).selected_commit,
                selected_diff_path: None,
                diff_text: final(self).diff_text,
                commit_error: None,
                ..*old(self)
            }),
            final(self).selected_commit matches Some(c) && c@ == oid@,
            final(self).diff_text@.len() == 0,
    {
        self.selected_commit = Some(owned(oid));
        self.selected_diff_path = None;
        self.diff_text = String::new();
        self.commit_error = None;
    }

    /// The changed paths of the selected commit arrived. Returns the first
    /// path, whose diff is shown next.
    pub fn apply_commit_paths(&mut self, paths: Result<Vec<String>, String>) -> (r: Option<String>)
        ensures
            match paths {
                Ok(ps) => *final(self) == (RepoUi { commit_paths: ps, ..*old(self) }) && r == if ps@.len()
                    > 0 {
                    Some(ps@[0])
                } else {
                    None
                },
                Err(e) => *final(self) == (RepoUi {
                    commit_paths: final(self).commit_paths,
                    commit_error: Some(e),
                    ..*old(self)
                }) && final(self).commit_paths@.len() == 0 && r is None,
            },
    {
        match paths {
            Ok(ps) => {
                let first = if ps.len() > 0 {
                    Some(ps[0].clone())
                } else {
                    None
                };
                self.commit_paths = ps;
                first
            },
            Err(e) => {
                self.commit_paths = Vec::new();
                self.commit_error = Some(e);
                None
            },
        }
    }

    /// Select the changed file `path` of the selected commit. Returns the
    /// commit whose diff to read, or `None` (and no change) when no commit is
    /// selected.
    pub fn begin_select_diff_path(&mut self, path: &str) -> (r: Option<String>)
        ensures
            r == old(self).selected_commit,
            r is None ==> *final(self) == *old(self),
            r is Some ==> *final(self) == (RepoUi {
                selected_diff_path: final(self).selected_diff_path,
                ..*old(self)
            }),
            r is Some ==> (final(self).selected_diff_path matches Some(p) && p@ == path@),
    {
        let oid = self.selected_commit.clone();
        if oid.is_some() {
            self.selected_diff_path = Some(owned(path));
        }
        oid
    }

    /// The diff of the selected commit's file arrived (or failed).
    pub fn apply_commit_diff(&mut self, diff: Result<String, String>)
        ensures
            match diff {
                Ok(text) => *final(self) == (RepoUi { diff_text: text, ..*old(self) }),
                Err(e) => *final(self) == (RepoUi {
                    diff_text: final(self).diff_text,
                    commit_error: Some(e),
                    ..*old(self)
                }) && final(self).diff_text@.len() == 0,
            },
    {
        match diff {
            Ok(text) => self.diff_text = text,
            Err(e) => {
                self.diff_text = String::new();
                self.commit_error = Some(e);
            },
        }
    }

    /// Select `patch` (before the paths between its base and head are read).
    pub fn begin_select_patch(&mut self, patch: &PatchRow)
        ensures
            *final(self) == (RepoUi {
                selected_patch: Some(patch.id),
                patch_base: patch.base,
                patch_head: patch.head,
                selected_patch_diff_path: None,
                patch_diff_text: final(self).patch_diff_text,
                patch_error: None,
                ..*old(self)
            }),
            final(self).patch_diff_text@.len() == 0,
    {
        self.selected_patch = Some(patch.id.clone());
        self.patch_base = patch.base.clone();
        self.patch_head = patch.head.clone();
        self.selected_patch_diff_path = None;
        self.patch_diff_text = String::new();
        self.patch_error = None;
    }

    /// The changed paths of the selected patch arrived. Returns the first path,
    /// whose diff is shown next.
    pub fn apply_patch_paths(&mut self, paths: Result<Vec<String>, String>) -> (r: Option<String>)
        ensures
            match paths {
                Ok(ps) => *final(self) == (RepoUi { patch_paths: ps, ..*old(self) }) && r == if ps@.len()
                    > 0 {
                    Some(ps@[0])
                } else {
                    None
                },
                Err(e) => *final(self) == (RepoUi {
                    patch_paths: final(self).patch_paths,
                    patch_error: Some(e),
                    ..*old(self)
                }) && final(self).patch_paths@.len() == 0 && r is None,
            },
    {
        match paths {
            Ok(ps) => {
                let first = if ps.len() > 0 {
                    Some(ps[0].clone())
                } else {
                    None
                };
                self.patch_paths = ps;
                first
            },
            Err(e) => {
                self.patch_paths = Vec::new();
                self.patch_error = Some(e);
                None
            },
        }
    }

    /// Select the changed file `path` of the selected patch. Returns false
    /// (and changes nothing) unless a patch with a known base and head is
    /// selected.
    pub fn begin_patch_diff_path(&mut self, path: &str) -> (r: bool)
        ensures
            r == (old(self).selected_patch is Some && old(self).patch_base@.len() > 0
                && old(self).patch_head@.len() > 0),
            !r ==> *final(self) == *old(self),
            r ==> *final(self) == (RepoUi {
                selected_patch_diff_path: final(self).selected_patch_diff_path,
                ..*old(self)
            }),
            r ==> (final(self).selected_patch_diff_path matches Some(p) && p@ == path@),
    {
        if self.selected_patch.is_none() || self.patch_base.as_str().is_empty()
            || self.patch_head.as_str().is_empty() {
            return false;
        }
        self.selected_patch_diff_path = Some(owned(path));
        true
    }

    /// The diff of the selected patch's file arrived (or failed).
    pub fn apply_patch_diff(&mut self, diff: Result<String, String>)
        ensures
            match diff {
                Ok(text) => *final(self) == (RepoUi {
                    patch_diff_text: text,
                    patch_error: None,
                    ..*old(self)
                }),
                Err(e) => *final(self) == (RepoUi {
                    patch_diff_text: final(self).patch_diff_text,
                    patch_error: Some(e),
                    ..*old(self)
                }) && final(self).patch_diff_text@.len() == 0,
            },
    {
        match diff {
            Ok(text) => {
                self.patch_diff_text = text;
                self.patch_error = None;
            },
            Err(e) => {
                self.patch_diff_text = String::new();
                self.patch_error = Some(e);
            },
        }
    }
}

/// The repo browser (tabs and their panes).
pub struct RepoBrowser;

} // verus!
