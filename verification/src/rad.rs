//! Repository snapshot types and the pure parts of loading a repo by RID:
//! short display forms of ids, description truncation, and list ordering.

use std::cmp::Ordering;

use vstd::prelude::*;
use vstd::slice::slice_to_vec;
use vstd::string::*;
use vstd::utf8::*;

use crate::components::browser::short_prefix;
use crate::order::{sort_ranked, stable_sorted, Ranked};
use crate::text::{
    decimal, decimal_u64, string_from_utf8, byte_range, byte_range_text, chars_of, has_prefix, lemma_seq_less_order, lowercase,
    matches_at, owned, seq_less, str_eq, str_less, to_lowercase, trim, trim_ws, Duplicate,
};
use crate::components::browser::readme_names;
use crate::view_api::{CommitRow, FileRow, IssueRow, JobRow, JobRunRow, PatchRow};

verus! {

/// One repository in local storage.
#[derive(Debug, Clone)]
pub struct RepoSummary {
    pub rid: String,
    pub name: String,
    pub description: String,
}

impl Duplicate for RepoSummary {
    fn duplicate(&self) -> (r: Self) {
        RepoSummary {
            rid: self.rid.clone(),
            name: self.name.clone(),
            description: self.description.clone(),
        }
    }
}

/// A loaded repository: identity, README, root tree, history and COB lists.
#[derive(Debug, Clone)]
pub struct RepoView {
    pub rid: String,
    pub name: String,
    pub description: String,
    pub head: String,
    pub head_oid: String,
    pub readme: String,
    pub files: Vec<FileRow>,
    pub commits: Vec<CommitRow>,
    pub patches: Vec<PatchRow>,
    pub issues: Vec<IssueRow>,
    pub jobs: Vec<JobRow>,
}

/// Why loading a profile or a repository failed.
#[derive(Debug, Clone)]
pub enum RadError {
    Profile(String),
    Rid(String),
    Open(String),
    Identity(String),
    Head(String),
    Other(String),
}

/// A README longer than this many bytes is cut.
pub const MAX_README: usize = 24_000;
/// Files larger than this many bytes are not shown.
pub const MAX_BLOB: usize = 200_000;
/// At most this many entries of a directory are listed.
pub const MAX_TREE: usize = 64;
/// At most this many commits of the history are listed.
pub const MAX_COMMITS: usize = 32;
/// A diff longer than this many bytes is cut.
pub const MAX_DIFF: usize = 200_000;
/// At most this many patches are listed.
pub const MAX_PATCHES: usize = 64;
/// At most this many issues are listed.
pub const MAX_ISSUES: usize = 64;
/// At most this many jobs are listed.
pub const MAX_JOBS: usize = 64;

/// Add `row` to a listing capped at `cap` rows (a full listing stays as it
/// is); `true` while there is room for more.
pub fn push_capped<T>(rows: &mut Vec<T>, row: T, cap: usize) -> (more: bool)
    ensures
        old(rows)@.len() < cap ==> final(rows)@ == old(rows)@.push(row),
        old(rows)@.len() >= cap ==> final(rows)@ == old(rows)@,
        old(rows)@.len() <= cap ==> final(rows)@.len() <= cap,
        more == (final(rows)@.len() < cap),
{
    if rows.len() < cap {
        rows.push(row);
    }
    rows.len() < cap
}
/// A COB description longer than this many bytes is cut.
pub const MAX_DESC: usize = 8_000;

/// A COB in the `open` state.
pub open spec fn is_open(state: Seq<char>) -> bool {
    state == "open"@
}

/// Open COBs sort before the others.
pub fn open_first(a: &str, b: &str) -> (r: Ordering)
    ensures
        is_open(a@) && !is_open(b@) ==> r == Ordering::Less,
        !is_open(a@) && is_open(b@) ==> r == Ordering::Greater,
        is_open(a@) == is_open(b@) ==> r == Ordering::Equal,
{
    let a_open = str_eq(a, "open");
    let b_open = str_eq(b, "open");
    if a_open && !b_open {
        Ordering::Less
    } else if !a_open && b_open {
        Ordering::Greater
    } else {
        Ordering::Equal
    }
}

/// COB list order: open first, then most recently updated first.
pub open spec fn cob_ranks_before(state_a: Seq<char>, updated_a: u64, state_b: Seq<char>, updated_b: u64) -> bool {
    ||| is_open(state_a) && !is_open(state_b)
    ||| is_open(state_a) == is_open(state_b) && updated_a > updated_b
}

fn cob_before(state_a: &str, updated_a: u64, state_b: &str, updated_b: u64) -> (r: bool)
    ensures
        r == cob_ranks_before(state_a@, updated_a, state_b@, updated_b),
{
    match open_first(state_a, state_b) {
        Ordering::Less => true,
        Ordering::Greater => false,
        Ordering::Equal => updated_a > updated_b,
    }
}

impl Ranked for PatchRow {
    open spec fn ranks_before(&self, other: &Self) -> bool {
        cob_ranks_before(self.state@, self.updated_ms, other.state@, other.updated_ms)
    }

    fn comes_before(&self, other: &Self) -> (r: bool) {
        cob_before(self.state.as_str(), self.updated_ms, other.state.as_str(), other.updated_ms)
    }

    proof fn lemma_strict_weak_order(a: &Self, b: &Self, c: &Self) {
    }
}

impl Ranked for IssueRow {
    open spec fn ranks_before(&self, other: &Self) -> bool {
        cob_ranks_before(self.state@, self.updated_ms, other.state@, other.updated_ms)
    }

    fn comes_before(&self, other: &Self) -> (r: bool) {
        cob_before(self.state.as_str(), self.updated_ms, other.state.as_str(), other.updated_ms)
    }

    proof fn lemma_strict_weak_order(a: &Self, b: &Self, c: &Self) {
    }
}

/// Calls `lemma_seq_less_order` on every arrangement of three sequences.
proof fn lemma_seq_less_three(a: Seq<char>, b: Seq<char>, c: Seq<char>)
    ensures
        !seq_less(a, a) && !seq_less(b, b) && !seq_less(c, c),
        seq_less(a, b) && seq_less(b, c) ==> seq_less(a, c),
        !seq_less(a, b) && !seq_less(b, a) ==> a == b,
        !seq_less(b, c) && !seq_less(c, b) ==> b == c,
        !seq_less(a, c) && !seq_less(c, a) ==> a == c,
{
    lemma_seq_less_order(a, b, c);
    lemma_seq_less_order(b, c, a);
    lemma_seq_less_order(c, a, b);
    lemma_seq_less_order(a, c, b);
}

/// Job list order: most recently updated first, then by id.
impl Ranked for JobRow {
    open spec fn ranks_before(&self, other: &Self) -> bool {
        ||| self.updated_secs > other.updated_secs
        ||| self.updated_secs == other.updated_secs && seq_less(self.id@, other.id@)
    }

    fn comes_before(&self, other: &Self) -> (r: bool) {
        self.updated_secs > other.updated_secs || (self.updated_secs == other.updated_secs
            && str_less(self.id.as_str(), other.id.as_str()))
    }

    proof fn lemma_strict_weak_order(a: &Self, b: &Self, c: &Self) {
        lemma_seq_less_three(a.id@, b.id@, c.id@);
    }
}

/// Runs of a job: newest first.
impl Ranked for JobRunRow {
    open spec fn ranks_before(&self, other: &Self) -> bool {
        self.timestamp_secs > other.timestamp_secs
    }

    fn comes_before(&self, other: &Self) -> (r: bool) {
        self.timestamp_secs > other.timestamp_secs
    }

    proof fn lemma_strict_weak_order(a: &Self, b: &Self, c: &Self) {
    }
}

/// Directory listing order: directories first, then by lowercased name.
impl Ranked for FileRow {
    open spec fn ranks_before(&self, other: &Self) -> bool {
        ||| self.is_tree && !other.is_tree
        ||| self.is_tree == other.is_tree && seq_less(lowercase(self.name@), lowercase(other.name@))
    }

    fn comes_before(&self, other: &Self) -> (r: bool) {
        if self.is_tree != other.is_tree {
            self.is_tree
        } else {
            str_less(to_lowercase(self.name.as_str()).as_str(), to_lowercase(other.name.as_str()).as_str())
        }
    }

    proof fn lemma_strict_weak_order(a: &Self, b: &Self, c: &Self) {
        lemma_seq_less_three(lowercase(a.name@), lowercase(b.name@), lowercase(c.name@));
    }
}

/// Local inventory order: by lowercased name.
impl Ranked for RepoSummary {
    open spec fn ranks_before(&self, other: &Self) -> bool {
        seq_less(lowercase(self.name@), lowercase(other.name@))
    }

    fn comes_before(&self, other: &Self) -> (r: bool) {
        str_less(to_lowercase(self.name.as_str()).as_str(), to_lowercase(other.name.as_str()).as_str())
    }

    proof fn lemma_strict_weak_order(a: &Self, b: &Self, c: &Self) {
        lemma_seq_less_three(lowercase(a.name@), lowercase(b.name@), lowercase(c.name@));
    }
}

/// Paths in string order.
impl Ranked for String {
    open spec fn ranks_before(&self, other: &Self) -> bool {
        seq_less(self@, other@)
    }

    fn comes_before(&self, other: &Self) -> (r: bool) {
        str_less(self.as_str(), other.as_str())
    }

    proof fn lemma_strict_weak_order(a: &Self, b: &Self, c: &Self) {
        lemma_seq_less_three(a@, b@, c@);
    }
}

/// The first 7 bytes of an object id (all of it when shorter).
pub fn short_oid(id: &str) -> (r: String)
    requires
        id.spec_bytes().len() > 7 ==> is_char_boundary(id.spec_bytes(), 7),
    ensures
        encode_utf8(r@) == if id.spec_bytes().len() > 7 {
            id.spec_bytes().take(7)
        } else {
            id.spec_bytes()
        },
{
    owned(short_prefix(id, 7))
}

/// `did` without its `did:key:` prefix.
pub open spec fn did_key(did: Seq<char>) -> Seq<char> {
    if has_prefix(did, "did:key:"@) {
        did.skip("did:key:"@.len() as int)
    } else {
        did
    }
}

fn strip_did_key(did: &str) -> (r: &str)
    ensures
        r@ == did_key(did@),
{
    let v = chars_of(did);
    let p = chars_of("did:key:");
    if p.len() <= v.len() && matches_at(&v, &p, 0) {
        assert(did@.skip(p@.len() as int) =~= did@.subrange(p@.len() as int, v@.len() as int));
        did.substring_char(p.len(), v.len())
    } else {
        did
    }
}

/// The key part of a DID is cut to its first 6 and last 4 bytes when longer
/// than 12 bytes.
pub open spec fn short_did_text(did: Seq<char>) -> Seq<char> {
    let k = did_key(did);
    let n = encode_utf8(k).len() as int;
    if n > 12 {
        byte_range_text(k, 0, 6) + "\u{2026}"@ + byte_range_text(k, n - 4, n)
    } else {
        k
    }
}

/// Both cut points of a shortened DID key fall on character boundaries.
pub open spec fn short_did_cuttable(did: Seq<char>) -> bool {
    let b = encode_utf8(did_key(did));
    b.len() > 12 ==> is_char_boundary(b, 6) && is_char_boundary(b, b.len() - 4)
}

/// Short form of a DID for author columns: the multibase key, with its middle
/// elided when long.
pub fn short_did(did: &str) -> (r: String)
    requires
        short_did_cuttable(did@),
    ensures
        r@ == short_did_text(did@),
{
    let key = strip_did_key(did);
    let n = key.as_bytes().len();
    if n > 12 {
        let mut s = owned(byte_range(key, 0, 6));
        s.append("\u{2026}");
        s.append(byte_range(key, n - 4, n));
        s
    } else {
        owned(key)
    }
}

/// A node id without its `did:key:` prefix, cut to 12 bytes and an ellipsis
/// when longer.
pub open spec fn short_nid_text(nid: Seq<char>) -> Seq<char> {
    let k = did_key(nid);
    if encode_utf8(k).len() > 12 {
        byte_range_text(k, 0, 12) + "\u{2026}"@
    } else {
        k
    }
}

/// Short form of a node id for run lists.
pub fn short_nid(nid: &str) -> (r: String)
    requires
        encode_utf8(did_key(nid@)).len() > 12 ==> is_char_boundary(encode_utf8(did_key(nid@)), 12),
    ensures
        r@ == short_nid_text(nid@),
{
    let key = strip_did_key(nid);
    if key.as_bytes().len() > 12 {
        let mut s = owned(byte_range(key, 0, 12));
        s.append("\u{2026}");
        s
    } else {
        owned(key)
    }
}

/// A description trimmed, and cut to [`MAX_DESC`] bytes and an ellipsis
/// when longer.
pub open spec fn truncated_desc(text: Seq<char>) -> Seq<char> {
    let t = trim_ws(text);
    if encode_utf8(t).len() > MAX_DESC {
        byte_range_text(t, 0, MAX_DESC as int) + "\u{2026}"@
    } else {
        t
    }
}

/// Trim a COB description and cap its length.
pub fn truncate_desc(text: &str) -> (r: String)
    requires
        encode_utf8(trim_ws(text@)).len() > MAX_DESC ==> is_char_boundary(
            encode_utf8(trim_ws(text@)),
            MAX_DESC as int,
        ),
    ensures
        r@ == truncated_desc(text@),
{
    let t = trim(text);
    if t.as_bytes().len() > MAX_DESC {
        let mut s = owned(byte_range(t, 0, MAX_DESC));
        s.append("\u{2026}");
        s
    } else {
        owned(t)
    }
}

/// The row shown for a patch: short id, short author, capped description.
pub fn patch_row(
    id: &str,
    title: &str,
    state: &str,
    author_did: &str,
    description: &str,
    head: &str,
    base: &str,
    revisions: usize,
    updated_ms: u64,
) -> (r: PatchRow)
    requires
        id.spec_bytes().len() > 7 ==> is_char_boundary(id.spec_bytes(), 7),
        short_did_cuttable(author_did@),
        encode_utf8(trim_ws(description@)).len() > MAX_DESC ==> is_char_boundary(
            encode_utf8(trim_ws(description@)),
            MAX_DESC as int,
        ),
    ensures
        r.id@ == id@,
        encode_utf8(r.short_id@) == if id.spec_bytes().len() > 7 {
            id.spec_bytes().take(7)
        } else {
            id.spec_bytes()
        },
        r.title@ == title@,
        r.state@ == state@,
        r.author@ == short_did_text(author_did@),
        r.description@ == truncated_desc(description@),
        r.head@ == head@,
        r.base@ == base@,
        r.revisions == revisions,
        r.updated_ms == updated_ms,
{
    PatchRow {
        short_id: short_oid(id),
        id: owned(id),
        title: owned(title),
        state: owned(state),
        author: short_did(author_did),
        description: truncate_desc(description),
        head: owned(head),
        base: owned(base),
        revisions,
        updated_ms,
    }
}

/// The row shown for an issue: short id, short author, capped description.
pub fn issue_row(
    id: &str,
    title: &str,
    state: &str,
    author_did: &str,
    description: &str,
    replies: usize,
    updated_ms: u64,
) -> (r: IssueRow)
    requires
        id.spec_bytes().len() > 7 ==> is_char_boundary(id.spec_bytes(), 7),
        short_did_cuttable(author_did@),
        encode_utf8(trim_ws(description@)).len() > MAX_DESC ==> is_char_boundary(
            encode_utf8(trim_ws(description@)),
            MAX_DESC as int,
        ),
    ensures
        r.id@ == id@,
        encode_utf8(r.short_id@) == if id.spec_bytes().len() > 7 {
            id.spec_bytes().take(7)
        } else {
            id.spec_bytes()
        },
        r.title@ == title@,
        r.state@ == state@,
        r.author@ == short_did_text(author_did@),
        r.description@ == truncated_desc(description@),
        r.replies == replies,
        r.updated_ms == updated_ms,
{
    IssueRow {
        short_id: short_oid(id),
        id: owned(id),
        title: owned(title),
        state: owned(state),
        author: short_did(author_did),
        description: truncate_desc(description),
        replies,
        updated_ms,
    }
}

/// The row shown for one run of a job.
pub fn job_run_row(node_did: &str, run_id: &str, status: &str, log: &str, timestamp_secs: u64) -> (r: JobRunRow)
    requires
        encode_utf8(did_key(node_did@)).len() > 12 ==> is_char_boundary(
            encode_utf8(did_key(node_did@)),
            12,
        ),
    ensures
        r.node@ == short_nid_text(node_did@),
        r.run_id@ == run_id@,
        r.status@ == status@,
        r.log@ == log@,
        r.timestamp_secs == timestamp_secs,
{
    JobRunRow {
        node: short_nid(node_did),
        run_id: owned(run_id),
        status: owned(status),
        log: owned(log),
        timestamp_secs,
    }
}

/// The newest run's time and status, taking runs in the order given: a
/// later run as new as the newest so far replaces it. `(0, "none")` with
/// no runs.
pub open spec fn latest_run(runs: Seq<JobRunRow>) -> (u64, Seq<char>)
    decreases runs.len(),
{
    if runs.len() == 0 {
        (0, "none"@)
    } else {
        let (t, s) = latest_run(runs.drop_last());
        if runs.last().timestamp_secs >= t {
            (runs.last().timestamp_secs, runs.last().status@)
        } else {
            (t, s)
        }
    }
}

/// Law: the latest time is the newest run's time (0 without runs), and the
/// latest status is the status of a run with that time ("none" without runs).
pub proof fn lemma_latest_run(runs: Seq<JobRunRow>)
    ensures
        forall|i: int| 0 <= i < runs.len() ==> (#[trigger] runs[i]).timestamp_secs <= latest_run(runs).0,
        runs.len() == 0 ==> latest_run(runs) == (0u64, "none"@),
        runs.len() > 0 ==> exists|i: int|
            0 <= i < runs.len() && (#[trigger] runs[i]).timestamp_secs == latest_run(runs).0
                && runs[i].status@ == latest_run(runs).1,
    decreases runs.len(),
{
    if runs.len() > 0 {
        let init = runs.drop_last();
        lemma_latest_run(init);
        assert forall|i: int| 0 <= i < runs.len() implies (#[trigger] runs[i]).timestamp_secs <= latest_run(runs).0 by {
            if i < init.len() {
                assert(runs[i] == init[i]);
            }
        }
        if runs.last().timestamp_secs < latest_run(init).0 {
            let i = choose|i: int|
                0 <= i < init.len() && (#[trigger] init[i]).timestamp_secs == latest_run(init).0
                    && init[i].status@ == latest_run(init).1;
            assert(runs[i] == init[i]);
        } else {
            assert(runs[runs.len() - 1] == runs.last());
        }
    }
}

/// The row shown for a job: short ids, the latest run's status and time,
/// and its runs newest first.
pub fn job_row(id: &str, commit: &str, node_count: usize, runs: Vec<JobRunRow>) -> (r: JobRow)
    requires
        id.spec_bytes().len() > 7 ==> is_char_boundary(id.spec_bytes(), 7),
        commit.spec_bytes().len() > 7 ==> is_char_boundary(commit.spec_bytes(), 7),
    ensures
        r.id@ == id@,
        encode_utf8(r.short_id@) == if id.spec_bytes().len() > 7 {
            id.spec_bytes().take(7)
        } else {
            id.spec_bytes()
        },
        r.commit@ == commit@,
        encode_utf8(r.short_commit@) == if commit.spec_bytes().len() > 7 {
            commit.spec_bytes().take(7)
        } else {
            commit.spec_bytes()
        },
        r.status@ == latest_run(runs@).1,
        r.updated_secs == latest_run(runs@).0,
        r.run_count == runs@.len(),
        r.node_count == node_count,
        r.runs@ == stable_sorted(runs@),
{
    let mut latest_ts: u64 = 0;
    let mut latest_status = owned("none");
    let mut k: usize = 0;
    while k < runs.len()
        invariant
            k <= runs@.len(),
            (latest_ts, latest_status@) == latest_run(runs@.take(k as int)),
        decreases runs@.len() - k,
    {
        assert(runs@.take(k + 1).drop_last() =~= runs@.take(k as int));
        let ts = runs[k].timestamp_secs;
        if ts >= latest_ts {
            latest_ts = ts;
            latest_status = runs[k].status.clone();
        }
        k += 1;
    }
    assert(runs@.take(runs@.len() as int) =~= runs@);
    let run_count = runs.len();
    JobRow {
        short_id: short_oid(id),
        id: owned(id),
        short_commit: short_oid(commit),
        commit: owned(commit),
        status: latest_status,
        run_count,
        node_count,
        updated_secs: latest_ts,
        runs: sort_ranked(runs),
    }
}

/// An inventory entry: the project's name and description, or the RID and
/// no description when the identity has no project payload.
pub fn repo_summary(rid: &str, project: Option<(&str, &str)>) -> (r: RepoSummary)
    ensures
        r.rid@ == rid@,
        match project {
            Some((name, description)) => r.name@ == name@ && r.description@ == description@,
            None => r.name@ == rid@ && r.description@.len() == 0,
        },
{
    match project {
        Some((name, description)) => RepoSummary {
            rid: owned(rid),
            name: owned(name),
            description: owned(description),
        },
        None => RepoSummary { rid: owned(rid), name: owned(rid), description: String::new() },
    }
}

/// Some element of `list` has the text `t`.
pub open spec fn has_text(list: Seq<String>, t: Seq<char>) -> bool {
    exists|i: int| 0 <= i < list.len() && (#[trigger] list[i])@ == t
}

/// `paths` without repeats: each text kept at its first occurrence.
pub open spec fn first_occurrences(paths: Seq<String>) -> Seq<String>
    decreases paths.len(),
{
    if paths.len() == 0 {
        paths
    } else if has_text(first_occurrences(paths.drop_last()), paths.last()@) {
        first_occurrences(paths.drop_last())
    } else {
        first_occurrences(paths.drop_last()).push(paths.last())
    }
}

fn has_path(list: &Vec<String>, p: &str) -> (r: bool)
    ensures
        r == has_text(list@, p@),
{
    let mut i: usize = 0;
    while i < list.len()
        invariant
            i <= list@.len(),
            forall|j: int| 0 <= j < i ==> (#[trigger] list@[j])@ != p@,
        decreases list@.len() - i,
    {
        if str_eq(list[i].as_str(), p) {
            return true;
        }
        i += 1;
    }
    false
}

/// The paths a commit touches, each once, in string order.
pub fn changed_paths(paths: Vec<String>) -> (r: Vec<String>)
    ensures
        r@ == stable_sorted(first_occurrences(paths@)),
{
    let mut out: Vec<String> = Vec::new();
    let mut k: usize = 0;
    while k < paths.len()
        invariant
            k <= paths@.len(),
            out@ == first_occurrences(paths@.take(k as int)),
        decreases paths@.len() - k,
    {
        assert(paths@.take(k + 1).drop_last() =~= paths@.take(k as int));
        if !has_path(&out, paths[k].as_str()) {
            out.push(paths[k].clone());
        }
        k += 1;
    }
    assert(paths@.take(paths@.len() as int) =~= paths@);
    sort_ranked(out)
}

/// The rows of a directory listing: at most [`MAX_TREE`] entries, in the
/// order given, unnamed ones shown as `?`.
pub open spec fn tree_rows(entries: Seq<(Option<String>, bool)>) -> Seq<(Seq<char>, bool)> {
    let n = if entries.len() > MAX_TREE {
        MAX_TREE as int
    } else {
        entries.len() as int
    };
    Seq::new(
        n as nat,
        |i: int|
            (
                match entries[i].0 {
                    Some(name) => name@,
                    None => "?"@,
                },
                entries[i].1,
            ),
    )
}

/// Name and kind of each row.
pub open spec fn row_fields(rows: Seq<FileRow>) -> Seq<(Seq<char>, bool)> {
    rows.map_values(|f: FileRow| (f.name@, f.is_tree))
}

/// A directory listing: the first [`MAX_TREE`] entries (name, is a
/// directory), directories first, then by lowercased name.
pub fn list_rows(entries: Vec<(Option<String>, bool)>) -> (r: Vec<FileRow>)
    ensures
        exists|rows: Seq<FileRow>|
            row_fields(rows) == tree_rows(entries@) && r@ == #[trigger] stable_sorted(rows),
{
    let mut files: Vec<FileRow> = Vec::new();
    let mut k: usize = 0;
    while k < entries.len() && files.len() < MAX_TREE
        invariant
            k <= entries@.len(),
            files@.len() == k,
            k <= MAX_TREE,
            row_fields(files@) == tree_rows(entries@.take(k as int)),
        decreases entries@.len() - k,
    {
        let ghost before = files@;
        let name = match &entries[k].0 {
            Some(n) => n.clone(),
            None => owned("?"),
        };
        assert(name@ == match entries@[k as int].0 {
            Some(n) => n@,
            None => "?"@,
        });
        files.push(FileRow { name, is_tree: entries[k].1 });
        k += 1;
        assert forall|i: int| 0 <= i < k implies #[trigger] row_fields(files@)[i] == tree_rows(entries@.take(k as int))[i] by {
            if i < k - 1 {
                assert(files@[i] == before[i]);
                assert(row_fields(before)[i] == tree_rows(entries@.take(k - 1))[i]);
            }
        }
        assert(row_fields(files@) =~= tree_rows(entries@.take(k as int)));
    }
    assert(tree_rows(entries@.take(k as int)) =~= tree_rows(entries@));
    let r = sort_ranked(files);
    assert(row_fields(files@) == tree_rows(entries@) && r@ == stable_sorted(files@));
    r
}

/// The position of the first `c` in `s`.
pub open spec fn first_index_of(s: Seq<char>, c: char) -> Option<int>
    decreases s.len(),
{
    if s.len() == 0 {
        None
    } else if s[0] == c {
        Some(0)
    } else {
        match first_index_of(s.drop_first(), c) {
            Some(i) => Some(i + 1),
            None => None,
        }
    }
}

/// The first line of `t`, as `str::lines` yields it: up to the first `\n`,
/// without a `\r` just before it.
pub open spec fn first_line(t: Seq<char>) -> Seq<char> {
    match first_index_of(t, '\n') {
        Some(i) => if i > 0 && t[i - 1] == '\r' {
            t.take(i - 1)
        } else {
            t.take(i)
        },
        None => t,
    }
}

/// The summary shown for a commit message: its first line once trimmed,
/// `(no message)` when nothing is left.
pub open spec fn commit_summary(message: Seq<char>) -> Seq<char> {
    let t = trim_ws(message);
    if t.len() == 0 {
        "(no message)"@
    } else {
        first_line(t)
    }
}

fn first_line_of(t: &str) -> (r: String)
    ensures
        r@ == first_line(t@),
{
    let v = chars_of(t);
    let mut i: usize = 0;
    while i < v.len() && v[i] != '\n'
        invariant
            v@ == t@,
            i <= v@.len(),
            forall|j: int| 0 <= j < i ==> v@[j] != '\n',
        decreases v@.len() - i,
    {
        i += 1;
    }
    proof {
        lemma_first_index_of(t@, '\n', i as int);
    }
    if i == v.len() {
        owned(t)
    } else if i > 0 && v[i - 1] == '\r' {
        assert(t@.take(i - 1) =~= t@.subrange(0, i - 1));
        owned(t.substring_char(0, i - 1))
    } else {
        assert(t@.take(i as int) =~= t@.subrange(0, i as int));
        owned(t.substring_char(0, i))
    }
}

proof fn lemma_first_index_of(s: Seq<char>, c: char, i: int)
    requires
        0 <= i <= s.len(),
        forall|j: int| 0 <= j < i ==> s[j] != c,
        i < s.len() ==> s[i] == c,
    ensures
        first_index_of(s, c) == if i < s.len() {
            Some(i)
        } else {
            None::<int>
        },
    decreases i,
{
    if i > 0 {
        lemma_first_index_of(s.drop_first(), c, i - 1);
    }
}

/// The row shown for a commit. `message` and `author` are `None` when git
/// has no UTF-8 text for them.
pub fn commit_row(id: &str, message: Option<&str>, author: Option<&str>) -> (r: CommitRow)
    requires
        id.spec_bytes().len() > 7 ==> is_char_boundary(id.spec_bytes(), 7),
    ensures
        r.id@ == id@,
        encode_utf8(r.short_id@) == if id.spec_bytes().len() > 7 {
            id.spec_bytes().take(7)
        } else {
            id.spec_bytes()
        },
        r.summary@ == commit_summary(
            match message {
                Some(m) => m@,
                None => Seq::<char>::empty(),
            },
        ),
        r.author@ == match author {
            Some(a) => a@,
            None => "unknown"@,
        },
{
    let msg = match message {
        Some(m) => m,
        None => "",
    };
    proof {
        reveal_strlit("");
    }
    let t = trim(msg);
    let summary = if t.is_empty() {
        owned("(no message)")
    } else {
        first_line_of(t)
    };
    CommitRow {
        short_id: short_oid(id),
        id: owned(id),
        summary,
        author: owned(
            match author {
                Some(a) => a,
                None => "unknown",
            },
        ),
    }
}

/// `b` holds a NUL byte (taken for a binary file).
pub open spec fn has_nul(b: Seq<u8>) -> bool {
    exists|i: int| 0 <= i < b.len() && b[i] == 0
}

/// What the file view shows for a blob of `size` bytes with `content`.
pub fn file_text(size: usize, content: &[u8]) -> (r: Result<String, RadError>)
    ensures
        size > MAX_BLOB ==> (r matches Err(RadError::Other(m)) && m@ == "file too large ("@
            + decimal(size as nat) + " bytes)"@),
        size <= MAX_BLOB && has_nul(content@) ==> (r matches Ok(t) && t@ == "(binary file, "@
            + decimal(content@.len()) + " bytes)"@),
        size <= MAX_BLOB && !has_nul(content@) && !valid_utf8(content@) ==> (r matches Err(
            RadError::Other(m),
        ) && m@ == "file is not valid UTF-8"@),
        size <= MAX_BLOB && !has_nul(content@) && valid_utf8(content@) ==> (r matches Ok(t)
            && encode_utf8(t@) == content@),
{
    if size > MAX_BLOB {
        let mut m = owned("file too large (");
        m.append(decimal_u64(size as u64).as_str());
        m.append(" bytes)");
        return Err(RadError::Other(m));
    }
    let mut i: usize = 0;
    while i < content.len()
        invariant
            i <= content@.len(),
            size <= MAX_BLOB,
            forall|j: int| 0 <= j < i ==> content@[j] != 0,
        decreases content@.len() - i,
    {
        if content[i] == 0 {
            let mut m = owned("(binary file, ");
            m.append(decimal_u64(content.len() as u64).as_str());
            m.append(" bytes)");
            return Ok(m);
        }
        i += 1;
    }
    match string_from_utf8(slice_to_vec(content)) {
        Ok(t) => Ok(t),
        Err(_) => Err(RadError::Other(owned("file is not valid UTF-8"))),
    }
}

/// The README text shown: cut to [`MAX_README`] bytes and an ellipsis when
/// longer.
pub open spec fn readme_shown(text: Seq<char>) -> Seq<char> {
    if encode_utf8(text).len() > MAX_README {
        byte_range_text(text, 0, MAX_README as int) + "\u{2026}"@
    } else {
        text
    }
}

/// The first README candidate from `i` on that was found as a blob with
/// UTF-8 content.
pub open spec fn readme_choice(blobs: Seq<Option<Vec<u8>>>, i: int) -> Option<Seq<u8>>
    decreases blobs.len() - i,
{
    if i < 0 || i >= blobs.len() {
        None
    } else {
        match blobs[i] {
            Some(b) => if valid_utf8(b@) {
                Some(b@)
            } else {
                readme_choice(blobs, i + 1)
            },
            None => readme_choice(blobs, i + 1),
        }
    }
}

/// The README that is shown can be cut on a character boundary.
pub open spec fn readme_cuttable(blobs: Seq<Option<Vec<u8>>>) -> bool {
    match readme_choice(blobs, 0) {
        Some(b) => b.len() > MAX_README ==> is_char_boundary(b, MAX_README as int),
        None => true,
    }
}

/// The README of a tree. `blobs[i]` holds the content of the i-th name of
/// [`readme_names`] when the tree has a blob of that name.
pub fn readme_text(blobs: &[Option<Vec<u8>>]) -> (r: String)
    requires
        readme_cuttable(blobs@),
    ensures
        match readme_choice(blobs@, 0) {
            Some(b) => r@ == readme_shown(decode_utf8(b)),
            None => r@ == "(no README)"@,
        },
{
    let mut i: usize = 0;
    while i < blobs.len()
        invariant
            i <= blobs@.len(),
            readme_cuttable(blobs@),
            readme_choice(blobs@, 0) == readme_choice(blobs@, i as int),
        decreases blobs@.len() - i,
    {
        if let Some(b) = &blobs[i] {
            if let Ok(text) = string_from_utf8(slice_to_vec(b.as_slice())) {
                proof {
                    encode_utf8_decode_utf8(text@);
                    assert(blobs@[i as int] == Some(*b));
                }
                let t = text.as_str();
                if t.as_bytes().len() > MAX_README {
                    let mut s = owned(byte_range(t, 0, MAX_README));
                    s.append("\u{2026}");
                    return s;
                }
                return text;
            }
        }
        i += 1;
    }
    owned("(no README)")
}

/// A diff line's origin marker that the patch text keeps.
pub open spec fn kept_origin(c: char) -> bool {
    c == '+' || c == '-' || c == ' ' || c == '\\'
}

/// `out` after one more diff line: its kept origin marker, then its content
/// when that is UTF-8.
pub open spec fn with_diff_line(out: Seq<char>, origin: char, content: Seq<u8>) -> Seq<char> {
    out + (if kept_origin(origin) {
        seq![origin]
    } else {
        seq![]
    }) + (if valid_utf8(content) {
        decode_utf8(content)
    } else {
        seq![]
    })
}

/// Law: each unified-diff origin marker `+` (added), `-` (removed), ` `
/// (context) and `\` (no newline note) stays in front of its line, which
/// grows the text by the marker and then the line's decoded content; any other
/// origin (the file and hunk header lines) adds the content alone. What was
/// there before is never changed.
pub proof fn lemma_diff_markers(out: Seq<char>, origin: char, content: Seq<u8>)
    ensures
        ({
            let text = if valid_utf8(content) {
                decode_utf8(content)
            } else {
                Seq::<char>::empty()
            };
            &&& origin == '+' ==> with_diff_line(out, origin, content) == out + seq!['+'] + text
            &&& origin == '-' ==> with_diff_line(out, origin, content) == out + seq!['-'] + text
            &&& origin == ' ' ==> with_diff_line(out, origin, content) == out + seq![' '] + text
            &&& origin == '\\' ==> with_diff_line(out, origin, content) == out + seq!['\\'] + text
            &&& !(origin == '+' || origin == '-' || origin == ' ' || origin == '\\')
                ==> with_diff_line(out, origin, content) == out + text
            &&& with_diff_line(out, origin, content).take(out.len() as int) == out
        }),
{
    let text = if valid_utf8(content) {
        decode_utf8(content)
    } else {
        Seq::<char>::empty()
    };
    let m: Seq<char> = if kept_origin(origin) {
        seq![origin]
    } else {
        seq![]
    };
    assert(with_diff_line(out, origin, content) == out + m + text);
    assert((out + m + text).take(out.len() as int) =~= out);
    if !kept_origin(origin) {
        assert(out + m =~= out);
    }
}

/// The text of a unified diff, built line by line and cut off once it
/// reaches [`MAX_DIFF`] bytes.
pub struct PatchText {
    pub text: String,
}

impl PatchText {
    /// Nothing collected yet.
    pub fn new() -> (r: Self)
        ensures
            r.text@.len() == 0,
    {
        PatchText { text: String::new() }
    }

    /// Add one diff line. Returns whether the walk should go on: once the
    /// text has [`MAX_DIFF`] bytes or more, a truncation note is added and
    /// the answer is `false`.
    pub fn add_line(&mut self, origin: char, content: &[u8]) -> (more: bool)
        ensures
            ({
                let o = with_diff_line(old(self).text@, origin, content@);
                if encode_utf8(o).len() < MAX_DIFF {
                    more && final(self).text@ == o
                } else {
                    !more && final(self).text@ == o + "\n\u{2026} (diff truncated)"@
                }
            }),
    {
        let ghost start = self.text@;
        if origin == '+' || origin == '-' || origin == ' ' || origin == '\\' {
            crate::text::push_char(&mut self.text, origin);
        }
        let ghost mid = self.text@;
        match string_from_utf8(slice_to_vec(content)) {
            Ok(s) => {
                proof {
                    encode_utf8_decode_utf8(s@);
                }
                self.text.append(s.as_str());
            },
            Err(_) => {},
        }
        proof {
            assert(self.text@ =~= with_diff_line(start, origin, content@));
        }
        if self.text.as_str().as_bytes().len() < MAX_DIFF {
            true
        } else {
            self.text.append("\n\u{2026} (diff truncated)");
            false
        }
    }

    /// The finished patch text; `(empty patch)` when no line added anything.
    pub fn finish(self) -> (r: String)
        ensures
            r@ == if self.text@.len() == 0 {
                "(empty patch)"@
            } else {
                self.text@
            },
    {
        if self.text.as_str().is_empty() {
            owned("(empty patch)")
        } else {
            self.text
        }
    }
}

impl RadError {
    /// The error's message.
    pub open spec fn message_text(self) -> Seq<char> {
        match self {
            RadError::Profile(m) => "load profile: "@ + m@,
            RadError::Rid(m) => "invalid RID: "@ + m@,
            RadError::Open(m) => "open repo: "@ + m@,
            RadError::Identity(m) => "identity: "@ + m@,
            RadError::Head(m) => "head: "@ + m@,
            RadError::Other(m) => m@,
        }
    }

    /// The error's message (what `to_string` gives).
    pub fn message(&self) -> (r: String)
        ensures
            r@ == self.message_text(),
    {
        let (prefix, detail) = match self {
            RadError::Profile(m) => ("load profile: ", m),
            RadError::Rid(m) => ("invalid RID: ", m),
            RadError::Open(m) => ("open repo: ", m),
            RadError::Identity(m) => ("identity: ", m),
            RadError::Head(m) => ("head: ", m),
            RadError::Other(m) => ("", m),
        };
        proof {
            reveal_strlit("");
        }
        let mut s = owned(prefix);
        s.append(detail.as_str());
        s
    }
}

/// The passphrase for a new profile: trimmed; none when blank.
pub fn profile_passphrase(passphrase: Option<&str>) -> (r: Option<String>)
    ensures
        match passphrase {
            Some(p) => if trim_ws(p@).len() > 0 {
                r matches Some(s) && s@ == trim_ws(p@)
            } else {
                r is None
            },
            None => r is None,
        },
{
    match passphrase {
        Some(p) => {
            let t = trim(p);
            if t.is_empty() {
                None
            } else {
                Some(owned(t))
            }
        },
        None => None,
    }
}

} // verus!
