//! Per-repo browser tab + status-filter preferences (the store is persisted by the host).

use vstd::prelude::*;
use vstd::string::*;

use crate::components::{IssueStatus, JobStatus, PatchStatus, RepoUi, Tab};
use crate::text::{owned, str_eq, Duplicate};

verus! {

/// At most this many repos keep preferences.
pub const MAX_REPOS: usize = 50;

/// The remembered tab and status filters of one repo.
#[derive(Debug, Clone, PartialEq, Eq)]
pub struct RepoTabPrefs {
    pub rid: String,
    /// `files` | `commits` | `patches` | `issues` | `jobs`
    pub tab: String,
    /// Patch status filter (`open` / `draft` / `merged` / `archived` / `all`).
    pub patch_status: String,
    /// Issue status filter (`open` / `closed` / `all`).
    pub issue_status: String,
    /// Job status filter (`all` / `started` / `succeeded` / `failed`).
    pub job_status: String,
}

impl Duplicate for RepoTabPrefs {
    fn duplicate(&self) -> (r: Self) {
        RepoTabPrefs {
            rid: self.rid.clone(),
            tab: self.tab.clone(),
            patch_status: self.patch_status.clone(),
            issue_status: self.issue_status.clone(),
            job_status: self.job_status.clone(),
        }
    }
}

/// Preferences of recently browsed repos, most recent first.
#[derive(Debug, Clone)]
pub struct TabPrefsStore {
    pub repos: Vec<RepoTabPrefs>,
}

impl Default for TabPrefsStore {
    fn default() -> (r: Self)
        ensures
            r.repos@.len() == 0,
    {
        TabPrefsStore { repos: Vec::new() }
    }
}

/// Position of the first entry for `rid`.
pub open spec fn first_for(repos: Seq<RepoTabPrefs>, rid: Seq<char>) -> Option<int>
    decreases repos.len(),
{
    if repos.len() == 0 {
        None
    } else if repos[0].rid@ == rid {
        Some(0)
    } else {
        match first_for(repos.drop_first(), rid) {
            Some(k) => Some(k + 1),
            None => None,
        }
    }
}

/// `repos` without the entries for `rid`, order kept.
pub open spec fn without_rid(repos: Seq<RepoTabPrefs>, rid: Seq<char>) -> Seq<RepoTabPrefs>
    decreases repos.len(),
{
    if repos.len() == 0 {
        repos
    } else if repos.last().rid@ == rid {
        without_rid(repos.drop_last(), rid)
    } else {
        without_rid(repos.drop_last(), rid).push(repos.last())
    }
}

/// The store after recording `prefs`: it goes to the front, replacing any
/// entry for the same repo, and the list is capped at [`MAX_REPOS`].
pub open spec fn recorded(repos: Seq<RepoTabPrefs>, prefs: RepoTabPrefs) -> Seq<RepoTabPrefs> {
    let all = seq![prefs] + without_rid(repos, prefs.rid@);
    if all.len() > MAX_REPOS {
        all.take(MAX_REPOS as int)
    } else {
        all
    }
}

/// The preferences stored for `rid`, if any.
pub fn get<'a>(store: &'a TabPrefsStore, rid: &str) -> (r: Option<&'a RepoTabPrefs>)
    ensures
        r is Some <==> first_for(store.repos@, rid@) is Some,
        r matches Some(p) ==> *p == store.repos@[first_for(store.repos@, rid@)->0],
{
    let mut k: usize = 0;
    while k < store.repos.len()
        invariant
            k <= store.repos@.len(),
            forall|j: int| 0 <= j < k ==> (#[trigger] store.repos@[j]).rid@ != rid@,
        decreases store.repos@.len() - k,
    {
        if str_eq(store.repos[k].rid.as_str(), rid) {
            proof {
                lemma_first_for(store.repos@, rid@, k as int);
            }
            return Some(&store.repos[k]);
        }
        k += 1;
    }
    proof {
        lemma_first_for_none(store.repos@, rid@);
    }
    None
}

/// When entry `k` is the first for `rid`, `first_for` finds it.
pub proof fn lemma_first_for(repos: Seq<RepoTabPrefs>, rid: Seq<char>, k: int)
    requires
        0 <= k < repos.len(),
        repos[k].rid@ == rid,
        forall|j: int| 0 <= j < k ==> (#[trigger] repos[j]).rid@ != rid,
    ensures
        first_for(repos, rid) == Some(k),
    decreases k,
{
    if k > 0 {
        assert(repos.drop_first()[k - 1] == repos[k]);
        assert forall|j: int| 0 <= j < k - 1 implies (#[trigger] repos.drop_first()[j]).rid@ != rid by {
            assert(repos.drop_first()[j] == repos[j + 1]);
        }
        lemma_first_for(repos.drop_first(), rid, k - 1);
    }
}

/// With no entry for `rid`, `first_for` finds nothing.
pub proof fn lemma_first_for_none(repos: Seq<RepoTabPrefs>, rid: Seq<char>)
    requires
        forall|j: int| 0 <= j < repos.len() ==> (#[trigger] repos[j]).rid@ != rid,
    ensures
        first_for(repos, rid) is None,
    decreases repos.len(),
{
    if repos.len() > 0 {
        assert forall|j: int| 0 <= j < repos.len() - 1 implies (#[trigger] repos.drop_first()[j]).rid@
            != rid by {
            assert(repos.drop_first()[j] == repos[j + 1]);
        }
        lemma_first_for_none(repos.drop_first(), rid);
    }
}

/// Insert or replace prefs for `prefs.rid` at the front; caps at [`MAX_REPOS`].
pub fn record(store: &mut TabPrefsStore, prefs: RepoTabPrefs)
    ensures
        final(store).repos@ == recorded(old(store).repos@, prefs),
{
    let ghost rid = prefs.rid@;
    let ghost p = prefs;
    let mut kept: Vec<RepoTabPrefs> = Vec::new();
    kept.push(prefs);
    let mut old_repos: Vec<RepoTabPrefs> = Vec::new();
    std::mem::swap(&mut old_repos, &mut store.repos);
    let mut k: usize = 0;
    while k < old_repos.len()
        invariant
            k <= old_repos@.len(),
            kept@.len() >= 1,
            kept@[0].rid@ == rid,
            kept@[0] == p,
            p.rid@ == rid,
            old_repos@ == old(store).repos@,
            kept@ == seq![kept@[0]] + without_rid(old_repos@.take(k as int), rid),
        decreases old_repos@.len() - k,
    {
        proof {
            assert(old_repos@.take(k + 1).drop_last() =~= old_repos@.take(k as int));
            assert(old_repos@.take(k + 1).last() == old_repos@[k as int]);
        }
        if !str_eq(old_repos[k].rid.as_str(), kept[0].rid.as_str()) {
            kept.push(old_repos[k].duplicate());
        }
        k += 1;
    }
    proof {
        assert(old_repos@.take(old_repos@.len() as int) =~= old_repos@);
    }
    kept.truncate(MAX_REPOS);
    store.repos = kept;
    proof {
        let all = seq![p] + without_rid(old(store).repos@, rid);
        if all.len() > MAX_REPOS {
            assert(store.repos@ =~= all.take(MAX_REPOS as int));
        } else {
            assert(store.repos@ =~= all);
        }
    }
}

/// Stored name of a Tab value.
pub open spec fn tab_text(x: Tab) -> Seq<char> {
    match x {
        Tab::Files => "files"@,
        Tab::Commits => "commits"@,
        Tab::Patches => "patches"@,
        Tab::Issues => "issues"@,
        Tab::Jobs => "jobs"@,
    }
}

/// The Tab value stored as `s`, if `s` names one.
pub open spec fn tab_named(s: Seq<char>) -> Option<Tab> {
    if s == "files"@ {
        Some(Tab::Files)
    } else if s == "commits"@ {
        Some(Tab::Commits)
    } else if s == "patches"@ {
        Some(Tab::Patches)
    } else if s == "issues"@ {
        Some(Tab::Issues)
    } else if s == "jobs"@ {
        Some(Tab::Jobs)
    } else {
        None
    }
}

/// Stored name of a Tab value.
pub fn tab_to_str(x: Tab) -> (r: &'static str)
    ensures
        r@ == tab_text(x),
{
    match x {
        Tab::Files => "files",
        Tab::Commits => "commits",
        Tab::Patches => "patches",
        Tab::Issues => "issues",
        Tab::Jobs => "jobs",
    }
}

/// Parse a stored Tab name.
pub fn parse_tab(s: &str) -> (r: Option<Tab>)
    ensures
        r == tab_named(s@),
{
    if str_eq(s, "files") {
        return Some(Tab::Files);
    }
    if str_eq(s, "commits") {
        return Some(Tab::Commits);
    }
    if str_eq(s, "patches") {
        return Some(Tab::Patches);
    }
    if str_eq(s, "issues") {
        return Some(Tab::Issues);
    }
    if str_eq(s, "jobs") {
        return Some(Tab::Jobs);
    }
    None
}

/// Law: the stored name of a Tab value parses back to it, and a name that
/// parses is the stored name of what it parses to.
pub proof fn lemma_tab_roundtrip(x: Tab, s: Seq<char>)
    ensures
        tab_named(tab_text(x)) == Some(x),
        tab_named(s) matches Some(y) ==> tab_text(y) == s,
{
    reveal_strlit("files");
    reveal_strlit("commits");
    reveal_strlit("patches");
    reveal_strlit("issues");
    reveal_strlit("jobs");
    assert("files"@.len() != "commits"@.len());
    assert("files"@.len() != "patches"@.len());
    assert("files"@.len() != "issues"@.len());
    assert("files"@.len() != "jobs"@.len());
    assert("commits"@[0] != "patches"@[0]);
    assert("commits"@.len() != "issues"@.len());
    assert("commits"@.len() != "jobs"@.len());
    assert("patches"@.len() != "issues"@.len());
    assert("patches"@.len() != "jobs"@.len());
    assert("issues"@.len() != "jobs"@.len());
}

/// Stored name of a PatchStatus value.
pub open spec fn patch_status_text(x: PatchStatus) -> Seq<char> {
    match x {
        PatchStatus::Open => "open"@,
        PatchStatus::Draft => "draft"@,
        PatchStatus::Merged => "merged"@,
        PatchStatus::Archived => "archived"@,
        PatchStatus::All => "all"@,
    }
}

/// The PatchStatus value stored as `s`, if `s` names one.
pub open spec fn patch_status_named(s: Seq<char>) -> Option<PatchStatus> {
    if s == "open"@ {
        Some(PatchStatus::Open)
    } else if s == "draft"@ {
        Some(PatchStatus::Draft)
    } else if s == "merged"@ {
        Some(PatchStatus::Merged)
    } else if s == "archived"@ {
        Some(PatchStatus::Archived)
    } else if s == "all"@ {
        Some(PatchStatus::All)
    } else {
        None
    }
}

/// Stored name of a PatchStatus value.
pub fn patch_status_to_str(x: PatchStatus) -> (r: &'static str)
    ensures
        r@ == patch_status_text(x),
{
    match x {
        PatchStatus::Open => "open",
        PatchStatus::Draft => "draft",
        PatchStatus::Merged => "merged",
        PatchStatus::Archived => "archived",
        PatchStatus::All => "all",
    }
}

/// Parse a stored PatchStatus name.
pub fn parse_patch_status(s: &str) -> (r: Option<PatchStatus>)
    ensures
        r == patch_status_named(s@),
{
    if str_eq(s, "open") {
        return Some(PatchStatus::Open);
    }
    if str_eq(s, "draft") {
        return Some(PatchStatus::Draft);
    }
    if str_eq(s, "merged") {
        return Some(PatchStatus::Merged);
    }
    if str_eq(s, "archived") {
        return Some(PatchStatus::Archived);
    }
    if str_eq(s, "all") {
        return Some(PatchStatus::All);
    }
    None
}

/// Law: the stored name of a PatchStatus value parses back to it, and a name that
/// parses is the stored name of what it parses to.
pub proof fn lemma_patch_status_roundtrip(x: PatchStatus, s: Seq<char>)
    ensures
        patch_status_named(patch_status_text(x)) == Some(x),
        patch_status_named(s) matches Some(y) ==> patch_status_text(y) == s,
{
    reveal_strlit("open");
    reveal_strlit("draft");
    reveal_strlit("merged");
    reveal_strlit("archived");
    reveal_strlit("all");
    assert("open"@.len() != "draft"@.len());
    assert("open"@.len() != "merged"@.len());
    assert("open"@.len() != "archived"@.len());
    assert("open"@.len() != "all"@.len());
    assert("draft"@.len() != "merged"@.len());
    assert("draft"@.len() != "archived"@.len());
    assert("draft"@.len() != "all"@.len());
    assert("merged"@.len() != "archived"@.len());
    assert("merged"@.len() != "all"@.len());
    assert("archived"@.len() != "all"@.len());
}

/// Stored name of a IssueStatus value.
pub open spec fn issue_status_text(x: IssueStatus) -> Seq<char> {
    match x {
        IssueStatus::Open => "open"@,
        IssueStatus::Closed => "closed"@,
        IssueStatus::All => "all"@,
    }
}

/// The IssueStatus value stored as `s`, if `s` names one.
pub open spec fn issue_status_named(s: Seq<char>) -> Option<IssueStatus> {
    if s == "open"@ {
        Some(IssueStatus::Open)
    } else if s == "closed"@ {
        Some(IssueStatus::Closed)
    } else if s == "all"@ {
        Some(IssueStatus::All)
    } else {
        None
    }
}

/// Stored name of a IssueStatus value.
pub fn issue_status_to_str(x: IssueStatus) -> (r: &'static str)
    ensures
        r@ == issue_status_text(x),
{
    match x {
        IssueStatus::Open => "open",
        IssueStatus::Closed => "closed",
        IssueStatus::All => "all",
    }
}

/// Parse a stored IssueStatus name.
pub fn parse_issue_status(s: &str) -> (r: Option<IssueStatus>)
    ensures
        r == issue_status_named(s@),
{
    if str_eq(s, "open") {
        return Some(IssueStatus::Open);
    }
    if str_eq(s, "closed") {
        return Some(IssueStatus::Closed);
    }
    if str_eq(s, "all") {
        return Some(IssueStatus::All);
    }
    None
}

/// Law: the stored name of a IssueStatus value parses back to it, and a name that
/// parses is the stored name of what it parses to.
pub proof fn lemma_issue_status_roundtrip(x: IssueStatus, s: Seq<char>)
    ensures
        issue_status_named(issue_status_text(x)) == Some(x),
        issue_status_named(s) matches Some(y) ==> issue_status_text(y) == s,
{
    reveal_strlit("open");
    reveal_strlit("closed");
    reveal_strlit("all");
    assert("open"@.len() != "closed"@.len());
    assert("open"@.len() != "all"@.len());
    assert("closed"@.len() != "all"@.len());
}

/// Stored name of a JobStatus value.
pub open spec fn job_status_text(x: JobStatus) -> Seq<char> {
    match x {
        JobStatus::All => "all"@,
        JobStatus::Started => "started"@,
        JobStatus::Succeeded => "succeeded"@,
        JobStatus::Failed => "failed"@,
    }
}

/// The JobStatus value stored as `s`, if `s` names one.
pub open spec fn job_status_named(s: Seq<char>) -> Option<JobStatus> {
    if s == "all"@ {
        Some(JobStatus::All)
    } else if s == "started"@ {
        Some(JobStatus::Started)
    } else if s == "succeeded"@ {
        Some(JobStatus::Succeeded)
    } else if s == "failed"@ {
        Some(JobStatus::Failed)
    } else {
        None
    }
}

/// Stored name of a JobStatus value.
pub fn job_status_to_str(x: JobStatus) -> (r: &'static str)
    ensures
        r@ == job_status_text(x),
{
    match x {
        JobStatus::All => "all",
        JobStatus::Started => "started",
        JobStatus::Succeeded => "succeeded",
        JobStatus::Failed => "failed",
    }
}

/// Parse a stored JobStatus name.
pub fn parse_job_status(s: &str) -> (r: Option<JobStatus>)
    ensures
        r == job_status_named(s@),
{
    if str_eq(s, "all") {
        return Some(JobStatus::All);
    }
    if str_eq(s, "started") {
        return Some(JobStatus::Started);
    }
    if str_eq(s, "succeeded") {
        return Some(JobStatus::Succeeded);
    }
    if str_eq(s, "failed") {
        return Some(JobStatus::Failed);
    }
    None
}

/// Law: the stored name of a JobStatus value parses back to it, and a name that
/// parses is the stored name of what it parses to.
pub proof fn lemma_job_status_roundtrip(x: JobStatus, s: Seq<char>)
    ensures
        job_status_named(job_status_text(x)) == Some(x),
        job_status_named(s) matches Some(y) ==> job_status_text(y) == s,
{
    reveal_strlit("all");
    reveal_strlit("started");
    reveal_strlit("succeeded");
    reveal_strlit("failed");
    assert("all"@.len() != "started"@.len());
    assert("all"@.len() != "succeeded"@.len());
    assert("all"@.len() != "failed"@.len());
    assert("started"@.len() != "succeeded"@.len());
    assert("started"@.len() != "failed"@.len());
    assert("succeeded"@.len() != "failed"@.len());
}

/// No two entries are for the same repo.
pub open spec fn distinct_rids(repos: Seq<RepoTabPrefs>) -> bool {
    forall|i: int, j: int| 0 <= i < j < repos.len() ==> (#[trigger] repos[i]).rid@ != (#[trigger] repos[j]).rid@
}

/// Every entry left by `without_rid` is an entry of the input with another
/// repo id, and the relative order is kept.
pub proof fn lemma_without_rid(repos: Seq<RepoTabPrefs>, rid: Seq<char>)
    ensures
        without_rid(repos, rid).len() <= repos.len(),
        forall|i: int|
            0 <= i < without_rid(repos, rid).len() ==> (#[trigger] without_rid(repos, rid)[i]).rid@
                != rid,
        forall|i: int|
            0 <= i < without_rid(repos, rid).len() ==> repos.contains(
                #[trigger] without_rid(repos, rid)[i],
            ),
        distinct_rids(repos) ==> distinct_rids(without_rid(repos, rid)),
    decreases repos.len(),
{
    if repos.len() > 0 {
        let init = repos.drop_last();
        lemma_without_rid(init, rid);
        let w = without_rid(init, rid);
        assert forall|i: int| 0 <= i < w.len() implies repos.contains(#[trigger] w[i]) by {
            let k = choose|k: int| 0 <= k < init.len() && init[k] == w[i];
            assert(repos[k] == init[k]);
        }
        if repos.last().rid@ != rid {
            let w2 = w.push(repos.last());
            assert forall|i: int| 0 <= i < w2.len() implies repos.contains(#[trigger] w2[i]) by {
                if i < w.len() {
                    assert(w2[i] == w[i]);
                } else {
                    assert(repos[repos.len() - 1] == w2[i]);
                }
            }
            if distinct_rids(repos) {
                assert(distinct_rids(init)) by {
                    assert forall|i: int, j: int| 0 <= i < j < init.len() implies (#[trigger] init[i]).rid@
                        != (#[trigger] init[j]).rid@ by {
                        assert(init[i] == repos[i]);
                        assert(init[j] == repos[j]);
                    }
                }
                assert forall|i: int, j: int| 0 <= i < j < w2.len() implies (#[trigger] w2[i]).rid@
                    != (#[trigger] w2[j]).rid@ by {
                    if j == w.len() {
                        let k = choose|k: int| 0 <= k < init.len() && init[k] == w[i];
                        assert(repos[k] == init[k]);
                        assert(w2[j] == repos[repos.len() - 1]);
                    } else {
                        assert(w2[i] == w[i]);
                        assert(w2[j] == w[j]);
                    }
                }
            }
        } else {
            if distinct_rids(repos) {
                assert forall|i: int, j: int| 0 <= i < j < init.len() implies (#[trigger] init[i]).rid@
                    != (#[trigger] init[j]).rid@ by {
                    assert(init[i] == repos[i]);
                    assert(init[j] == repos[j]);
                }
            }
        }
    }
}

/// Law: after recording `prefs`, it is the first entry, the list holds at most
/// [`MAX_REPOS`] entries, no other entry is for the same repo, looking the repo
/// up gives `prefs` back, and distinct repo ids stay distinct.
pub proof fn lemma_record(repos: Seq<RepoTabPrefs>, prefs: RepoTabPrefs)
    ensures
        recorded(repos, prefs).len() >= 1,
        recorded(repos, prefs)[0] == prefs,
        recorded(repos, prefs).len() <= MAX_REPOS,
        recorded(repos, prefs).len() <= repos.len() + 1,
        forall|i: int|
            1 <= i < recorded(repos, prefs).len() ==> (#[trigger] recorded(repos, prefs)[i]).rid@
                != prefs.rid@ && repos.contains(recorded(repos, prefs)[i]),
        first_for(recorded(repos, prefs), prefs.rid@) == Some(0int),
        distinct_rids(repos) ==> distinct_rids(recorded(repos, prefs)),
{
    lemma_without_rid(repos, prefs.rid@);
    let w = without_rid(repos, prefs.rid@);
    let all = seq![prefs] + w;
    let r = recorded(repos, prefs);
    assert forall|i: int| 1 <= i < r.len() implies (#[trigger] r[i]).rid@ != prefs.rid@
        && repos.contains(r[i]) by {
        assert(r[i] == all[i]);
        assert(all[i] == w[i - 1]);
    }
    if distinct_rids(repos) {
        assert forall|i: int, j: int| 0 <= i < j < r.len() implies (#[trigger] r[i]).rid@
            != (#[trigger] r[j]).rid@ by {
            assert(r[j] == w[j - 1]);
            if i > 0 {
                assert(r[i] == w[i - 1]);
            }
        }
    }
}

/// What `first_for` finds: the first entry for `rid`, or nothing when no
/// entry is for it.
proof fn lemma_first_for_props(repos: Seq<RepoTabPrefs>, rid: Seq<char>)
    ensures
        match first_for(repos, rid) {
            Some(k) => 0 <= k < repos.len() && repos[k].rid@ == rid && forall|j: int|
                0 <= j < k ==> (#[trigger] repos[j]).rid@ != rid,
            None => forall|j: int| 0 <= j < repos.len() ==> (#[trigger] repos[j]).rid@ != rid,
        },
    decreases repos.len(),
{
    if repos.len() > 0 && repos[0].rid@ != rid {
        let t = repos.drop_first();
        lemma_first_for_props(t, rid);
        match first_for(t, rid) {
            Some(k) => {
                assert(repos[k + 1] == t[k]);
                assert forall|j: int| 0 <= j < k + 1 implies (#[trigger] repos[j]).rid@ != rid by {
                    if j > 0 {
                        assert(repos[j] == t[j - 1]);
                    }
                }
            },
            None => {
                assert forall|j: int| 0 <= j < repos.len() implies (#[trigger] repos[j]).rid@ != rid by {
                    if j > 0 {
                        assert(repos[j] == t[j - 1]);
                    }
                }
            },
        }
    }
}

/// `without_rid` keeps the first entry of every other repo.
proof fn lemma_without_rid_first(repos: Seq<RepoTabPrefs>, q: Seq<char>, rid: Seq<char>)
    requires
        rid != q,
    ensures
        first_for(without_rid(repos, q), rid) is None <==> first_for(repos, rid) is None,
        first_for(without_rid(repos, q), rid) matches Some(k) ==> (first_for(repos, rid) matches Some(
            j,
        ) && 0 <= k < without_rid(repos, q).len() && 0 <= j < repos.len() && without_rid(repos, q)[k]
            == repos[j]),
    decreases repos.len(),
{
    if repos.len() > 0 {
        let init = repos.drop_last();
        let x = repos.last();
        lemma_without_rid_first(init, q, rid);
        assert(init.push(x) =~= repos);
        lemma_first_for_push(init, x, rid);
        lemma_first_for_props(init, rid);
        let w0 = without_rid(init, q);
        lemma_first_for_props(w0, rid);
        if x.rid@ != q {
            lemma_first_for_push(w0, x, rid);
            let w = w0.push(x);
            assert(without_rid(repos, q) == w);
            match first_for(w0, rid) {
                Some(k) => {
                    let j = first_for(init, rid)->0;
                    assert(w[k] == w0[k]);
                    assert(repos[j] == init[j]);
                },
                None => {
                    assert(w[w0.len() as int] == x);
                    assert(repos[init.len() as int] == x);
                },
            }
        } else {
            assert(without_rid(repos, q) == w0);
            match first_for(w0, rid) {
                Some(k) => {
                    let j = first_for(init, rid)->0;
                    assert(repos[j] == init[j]);
                },
                None => {},
            }
        }
    }
}

/// Looking up a list with one more entry at its end.
proof fn lemma_first_for_push(s: Seq<RepoTabPrefs>, x: RepoTabPrefs, rid: Seq<char>)
    ensures
        first_for(s.push(x), rid) == match first_for(s, rid) {
            Some(k) => Some(k),
            None => if x.rid@ == rid {
                Some(s.len() as int)
            } else {
                None
            },
        },
    decreases s.len(),
{
    let t = s.push(x);
    if s.len() > 0 {
        assert(t.drop_first() =~= s.drop_first().push(x));
        assert(t[0] == s[0]);
        lemma_first_for_push(s.drop_first(), x, rid);
        if s[0].rid@ != rid {
            assert(first_for(t, rid) == match first_for(t.drop_first(), rid) {
                Some(k) => Some(k + 1),
                None => None::<int>,
            });
            assert(first_for(s, rid) == match first_for(s.drop_first(), rid) {
                Some(k) => Some(k + 1),
                None => None::<int>,
            });
        }
    } else {
        assert(t.drop_first() =~= Seq::<RepoTabPrefs>::empty());
        assert(t[0] == x);
        assert(first_for(t.drop_first(), rid) is None);
    }
}

/// Law: recording `prefs` leaves the lookup of every other repo as it was,
/// or loses it when the cap pushes its entry out; it never invents one.
pub proof fn lemma_record_keeps_others(repos: Seq<RepoTabPrefs>, prefs: RepoTabPrefs, rid: Seq<char>)
    requires
        rid != prefs.rid@,
    ensures
        first_for(repos, rid) is None ==> first_for(recorded(repos, prefs), rid) is None,
        first_for(recorded(repos, prefs), rid) matches Some(k) ==> (first_for(repos, rid) matches Some(j)
            && recorded(repos, prefs)[k] == repos[j]),
{
    let w = without_rid(repos, prefs.rid@);
    let all = seq![prefs] + w;
    let r = recorded(repos, prefs);
    lemma_without_rid_first(repos, prefs.rid@, rid);
    assert(all.drop_first() =~= w);
    lemma_first_for_props(all, rid);
    lemma_first_for_props(w, rid);
    lemma_first_for_props(repos, rid);
    match first_for(all, rid) {
        Some(k) => {
            assert(all[k] == w[k - 1]);
            if r.len() > k {
                assert forall|j: int| 0 <= j < k implies (#[trigger] r[j]).rid@ != rid by {
                    assert(r[j] == all[j]);
                }
                assert(r[k] == all[k]);
                lemma_first_for(r, rid, k);
            } else {
                assert forall|j: int| 0 <= j < r.len() implies (#[trigger] r[j]).rid@ != rid by {
                    assert(r[j] == all[j]);
                }
                lemma_first_for_none(r, rid);
            }
        },
        None => {
            assert forall|j: int| 0 <= j < r.len() implies (#[trigger] r[j]).rid@ != rid by {
                assert(r[j] == all[j]);
            }
            lemma_first_for_none(r, rid);
        },
    }
}

/// `p` is the preferences of the browser state `ui`: its repo, and its tab
/// and status filters as text.
pub open spec fn prefs_of(p: RepoTabPrefs, ui: RepoUi) -> bool {
    &&& p.rid == ui.rid
    &&& p.tab@ == tab_text(ui.tab)
    &&& p.patch_status@ == patch_status_text(ui.patch_status)
    &&& p.issue_status@ == issue_status_text(ui.issue_status)
    &&& p.job_status@ == job_status_text(ui.job_status)
}

/// Snapshot the tab and status filters of the browser for its repo.
pub fn from_ui(ui: &RepoUi) -> (r: RepoTabPrefs)
    ensures
        prefs_of(r, *ui),
{
    RepoTabPrefs {
        rid: ui.rid.clone(),
        tab: owned(tab_to_str(ui.tab)),
        patch_status: owned(patch_status_to_str(ui.patch_status)),
        issue_status: owned(issue_status_to_str(ui.issue_status)),
        job_status: owned(job_status_to_str(ui.job_status)),
    }
}

/// The value named `x`, or the default when `x` names nothing.
pub open spec fn or_default<T>(x: Option<T>, d: T) -> T {
    match x {
        Some(v) => v,
        None => d,
    }
}

/// Restore the tab and status filters from `prefs`; names that do not parse
/// fall back to the defaults (Files, Open, Open, All).
pub fn apply_to_ui(prefs: &RepoTabPrefs, ui: &mut RepoUi)
    ensures
        *final(ui) == (RepoUi {
            tab: or_default(tab_named(prefs.tab@), Tab::Files),
            patch_status: or_default(patch_status_named(prefs.patch_status@), PatchStatus::Open),
            issue_status: or_default(issue_status_named(prefs.issue_status@), IssueStatus::Open),
            job_status: or_default(job_status_named(prefs.job_status@), JobStatus::All),
            ..*old(ui)
        }),
{
    ui.tab = match parse_tab(prefs.tab.as_str()) {
        Some(t) => t,
        None => Tab::default(),
    };
    ui.patch_status = match parse_patch_status(prefs.patch_status.as_str()) {
        Some(t) => t,
        None => PatchStatus::default(),
    };
    ui.issue_status = match parse_issue_status(prefs.issue_status.as_str()) {
        Some(t) => t,
        None => IssueStatus::default(),
    };
    ui.job_status = match parse_job_status(prefs.job_status.as_str()) {
        Some(t) => t,
        None => JobStatus::default(),
    };
}

/// Law: restoring the prefs taken from a browser gives back its tab and
/// status filters and changes nothing else.
pub proof fn lemma_prefs_roundtrip(from: RepoUi, prefs: RepoTabPrefs, ui: RepoUi, restored: RepoUi)
    requires
        prefs.tab@ == tab_text(from.tab),
        prefs.patch_status@ == patch_status_text(from.patch_status),
        prefs.issue_status@ == issue_status_text(from.issue_status),
        prefs.job_status@ == job_status_text(from.job_status),
        restored == (RepoUi {
            tab: or_default(tab_named(prefs.tab@), Tab::Files),
            patch_status: or_default(patch_status_named(prefs.patch_status@), PatchStatus::Open),
            issue_status: or_default(issue_status_named(prefs.issue_status@), IssueStatus::Open),
            job_status: or_default(job_status_named(prefs.job_status@), JobStatus::All),
            ..ui
        }),
    ensures
        restored == (RepoUi {
            tab: from.tab,
            patch_status: from.patch_status,
            issue_status: from.issue_status,
            job_status: from.job_status,
            ..ui
        }),
{
    lemma_tab_roundtrip(from.tab, prefs.tab@);
    lemma_patch_status_roundtrip(from.patch_status, prefs.patch_status@);
    lemma_issue_status_roundtrip(from.issue_status, prefs.issue_status@);
    lemma_job_status_roundtrip(from.job_status, prefs.job_status@);
}

} // verus!
