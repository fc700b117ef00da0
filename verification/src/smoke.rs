//! The headless smoke dump: a short text report of a loaded repository.

use vstd::prelude::*;
use vstd::string::*;

use crate::gleam_bridge::string_views;
use crate::rad::RepoView;
use crate::text::{chars_of, decimal, decimal_u64, owned, push_char};
use crate::view_api::{CommitRow, FileRow, IssueRow, JobRow, PatchRow};

verus! {

/// `n` capped at `cap`.
pub open spec fn at_most(n: nat, cap: nat) -> nat {
    if n > cap {
        cap
    } else {
        n
    }
}

/// The first `n` characters of `text` (all of it when shorter).
pub open spec fn preview_text(text: Seq<char>, n: nat) -> Seq<char> {
    text.take(at_most(text.len(), n) as int)
}

/// The first `n` characters of `text`.
pub fn preview(text: &str, n: usize) -> (r: String)
    ensures
        r@ == preview_text(text@, n as nat),
{
    let v = chars_of(text);
    let mut r = String::new();
    let mut i: usize = 0;
    while i < v.len() && i < n
        invariant
            v@ == text@,
            i <= v@.len(),
            i <= n,
            r@ == text@.take(i as int),
        decreases v@.len() - i,
    {
        push_char(&mut r, v[i]);
        i += 1;
        assert(r@ =~= text@.take(i as int));
    }
    r
}

/// `- name`, with `/` after a directory.
pub open spec fn file_line(f: FileRow) -> Seq<char> {
    "  - "@ + f.name@ + if f.is_tree {
        "/"@
    } else {
        Seq::<char>::empty()
    }
}

/// Short id, summary and author of a commit.
pub open spec fn commit_line(c: CommitRow) -> Seq<char> {
    "  "@ + c.short_id@ + "  "@ + c.summary@ + " \u{2014} "@ + c.author@
}

/// State, short id, title and author of a patch.
pub open spec fn patch_line(p: PatchRow) -> Seq<char> {
    "  ["@ + p.state@ + "] "@ + p.short_id@ + "  "@ + p.title@ + " \u{2014} "@ + p.author@
}

/// State, short id, title and author of an issue.
pub open spec fn issue_line(i: IssueRow) -> Seq<char> {
    "  ["@ + i.state@ + "] "@ + i.short_id@ + "  "@ + i.title@ + " \u{2014} "@ + i.author@
}

/// Status, short id, commit and run count of a job.
pub open spec fn job_line(j: JobRow) -> Seq<char> {
    "  ["@ + j.status@ + "] "@ + j.short_id@ + "  commit "@ + j.short_commit@ + " \u{2014} "@
        + decimal(j.run_count as nat) + " run(s)"@
}

/// The report of a loaded repo: identity, then the first 12 entries, 8
/// commits, 8 patches, 8 issues and 8 jobs, each list after its count.
pub open spec fn dump_lines(v: RepoView) -> Seq<Seq<char>> {
    seq![
        "rid:   "@ + v.rid@,
        "name:  "@ + v.name@,
        "desc:  "@ + v.description@,
        "head:  "@ + v.head@,
        "files: "@ + decimal(v.files@.len()) + " entries"@,
    ] + Seq::new(at_most(v.files@.len(), 12), |i: int| file_line(v.files@[i])) + seq![
        "commits: "@ + decimal(v.commits@.len()),
    ] + Seq::new(at_most(v.commits@.len(), 8), |i: int| commit_line(v.commits@[i])) + seq![
        "patches: "@ + decimal(v.patches@.len()),
    ] + Seq::new(at_most(v.patches@.len(), 8), |i: int| patch_line(v.patches@[i])) + seq![
        "issues: "@ + decimal(v.issues@.len()),
    ] + Seq::new(at_most(v.issues@.len(), 8), |i: int| issue_line(v.issues@[i])) + seq![
        "jobs: "@ + decimal(v.jobs@.len()),
    ] + Seq::new(at_most(v.jobs@.len(), 8), |i: int| job_line(v.jobs@[i]))
}

/// `a + b` as a new string.
fn join2(a: &str, b: &str) -> (r: String)
    ensures
        r@ == a@ + b@,
{
    let mut s = owned(a);
    s.append(b);
    s
}

fn count_line(label: &str, n: usize) -> (r: String)
    ensures
        r@ == label@ + decimal(n as nat),
{
    join2(label, decimal_u64(n as u64).as_str())
}

fn push_file_lines(out: &mut Vec<String>, files: &Vec<FileRow>)
    ensures
        string_views(final(out)@) == string_views(old(out)@) + Seq::new(
            at_most(files@.len(), 12),
            |i: int| file_line(files@[i]),
        ),
{
    let mut i: usize = 0;
    while i < files.len() && i < 12
        invariant
            i <= files@.len(),
            i <= 12,
            string_views(out@) == string_views(old(out)@) + Seq::new(
                i as nat,
                |k: int| file_line(files@[k]),
            ),
        decreases files@.len() - i,
    {
        let f = &files[i];
        let mut line = join2("  - ", f.name.as_str());
        if f.is_tree {
            line.append("/");
        } else {
            line.append("");
        }
        proof {
            reveal_strlit("");
        }
        let ghost before = string_views(out@);
        let ghost l = line@;
        push_line(out, line);
        assert(l == file_line(files@[i as int]));
        assert(Seq::new((i + 1) as nat, |k: int| file_line(files@[k])) =~= Seq::new(
            i as nat,
            |k: int| file_line(files@[k]),
        ).push(file_line(files@[i as int])));
        i += 1;
    }
    assert(Seq::new(i as nat, |k: int| file_line(files@[k])) =~= Seq::new(
        at_most(files@.len(), 12),
        |k: int| file_line(files@[k]),
    ));
}

fn push_commit_lines(out: &mut Vec<String>, commits: &Vec<CommitRow>)
    ensures
        string_views(final(out)@) == string_views(old(out)@) + Seq::new(
            at_most(commits@.len(), 8),
            |i: int| commit_line(commits@[i]),
        ),
{
    let mut i: usize = 0;
    while i < commits.len() && i < 8
        invariant
            i <= commits@.len(),
            i <= 8,
            string_views(out@) == string_views(old(out)@) + Seq::new(
                i as nat,
                |k: int| commit_line(commits@[k]),
            ),
        decreases commits@.len() - i,
    {
        let c = &commits[i];
        let mut line = join2("  ", c.short_id.as_str());
        line.append("  ");
        line.append(c.summary.as_str());
        line.append(" \u{2014} ");
        line.append(c.author.as_str());
        let ghost before = string_views(out@);
        let ghost l = line@;
        push_line(out, line);
        assert(l == commit_line(commits@[i as int]));
        assert(Seq::new((i + 1) as nat, |k: int| commit_line(commits@[k])) =~= Seq::new(
            i as nat,
            |k: int| commit_line(commits@[k]),
        ).push(commit_line(commits@[i as int])));
        i += 1;
    }
    assert(Seq::new(i as nat, |k: int| commit_line(commits@[k])) =~= Seq::new(
        at_most(commits@.len(), 8),
        |k: int| commit_line(commits@[k]),
    ));
}

fn push_patch_lines(out: &mut Vec<String>, patches: &Vec<PatchRow>)
    ensures
        string_views(final(out)@) == string_views(old(out)@) + Seq::new(
            at_most(patches@.len(), 8),
            |i: int| patch_line(patches@[i]),
        ),
{
    let mut i: usize = 0;
    while i < patches.len() && i < 8
        invariant
            i <= patches@.len(),
            i <= 8,
            string_views(out@) == string_views(old(out)@) + Seq::new(
                i as nat,
                |k: int| patch_line(patches@[k]),
            ),
        decreases patches@.len() - i,
    {
        let p = &patches[i];
        let mut line = join2("  [", p.state.as_str());
        line.append("] ");
        line.append(p.short_id.as_str());
        line.append("  ");
        line.append(p.title.as_str());
        line.append(" \u{2014} ");
        line.append(p.author.as_str());
        let ghost before = string_views(out@);
        let ghost l = line@;
        push_line(out, line);
        assert(l == patch_line(patches@[i as int]));
        assert(Seq::new((i + 1) as nat, |k: int| patch_line(patches@[k])) =~= Seq::new(
            i as nat,
            |k: int| patch_line(patches@[k]),
        ).push(patch_line(patches@[i as int])));
        i += 1;
    }
    assert(Seq::new(i as nat, |k: int| patch_line(patches@[k])) =~= Seq::new(
        at_most(patches@.len(), 8),
        |k: int| patch_line(patches@[k]),
    ));
}

fn push_issue_lines(out: &mut Vec<String>, issues: &Vec<IssueRow>)
    ensures
        string_views(final(out)@) == string_views(old(out)@) + Seq::new(
            at_most(issues@.len(), 8),
            |i: int| issue_line(issues@[i]),
        ),
{
    let mut i: usize = 0;
    while i < issues.len() && i < 8
        invariant
            i <= issues@.len(),
            i <= 8,
            string_views(out@) == string_views(old(out)@) + Seq::new(
                i as nat,
                |k: int| issue_line(issues@[k]),
            ),
        decreases issues@.len() - i,
    {
        let it = &issues[i];
        let mut line = join2("  [", it.state.as_str());
        line.append("] ");
        line.append(it.short_id.as_str());
        line.append("  ");
        line.append(it.title.as_str());
        line.append(" \u{2014} ");
        line.append(it.author.as_str());
        let ghost before = string_views(out@);
        let ghost l = line@;
        push_line(out, line);
        assert(l == issue_line(issues@[i as int]));
        assert(Seq::new((i + 1) as nat, |k: int| issue_line(issues@[k])) =~= Seq::new(
            i as nat,
            |k: int| issue_line(issues@[k]),
        ).push(issue_line(issues@[i as int])));
        i += 1;
    }
    assert(Seq::new(i as nat, |k: int| issue_line(issues@[k])) =~= Seq::new(
        at_most(issues@.len(), 8),
        |k: int| issue_line(issues@[k]),
    ));
}

fn push_job_lines(out: &mut Vec<String>, jobs: &Vec<JobRow>)
    ensures
        string_views(final(out)@) == string_views(old(out)@) + Seq::new(
            at_most(jobs@.len(), 8),
            |i: int| job_line(jobs@[i]),
        ),
{
    let mut i: usize = 0;
    while i < jobs.len() && i < 8
        invariant
            i <= jobs@.len(),
            i <= 8,
            string_views(out@) == string_views(old(out)@) + Seq::new(
                i as nat,
                |k: int| job_line(jobs@[k]),
            ),
        decreases jobs@.len() - i,
    {
        let j = &jobs[i];
        let mut line = join2("  [", j.status.as_str());
        line.append("] ");
        line.append(j.short_id.as_str());
        line.append("  commit ");
        line.append(j.short_commit.as_str());
        line.append(" \u{2014} ");
        line.append(decimal_u64(j.run_count as u64).as_str());
        line.append(" run(s)");
        let ghost before = string_views(out@);
        let ghost l = line@;
        push_line(out, line);
        assert(l == job_line(jobs@[i as int]));
        assert(Seq::new((i + 1) as nat, |k: int| job_line(jobs@[k])) =~= Seq::new(
            i as nat,
            |k: int| job_line(jobs@[k]),
        ).push(job_line(jobs@[i as int])));
        i += 1;
    }
    assert(Seq::new(i as nat, |k: int| job_line(jobs@[k])) =~= Seq::new(
        at_most(jobs@.len(), 8),
        |k: int| job_line(jobs@[k]),
    ));
}

fn push_line(out: &mut Vec<String>, line: String)
    ensures
        string_views(final(out)@) == string_views(old(out)@).push(line@),
{
    out.push(line);
    assert(string_views(out@) =~= string_views(old(out)@).push(line@));
}

/// The report of a loaded repository (see [`dump_lines`]).
pub fn view_dump(view: &RepoView) -> (r: Vec<String>)
    ensures
        string_views(r@) == dump_lines(*view),
{
    let mut out: Vec<String> = Vec::new();
    push_line(&mut out, join2("rid:   ", view.rid.as_str()));
    push_line(&mut out, join2("name:  ", view.name.as_str()));
    push_line(&mut out, join2("desc:  ", view.description.as_str()));
    push_line(&mut out, join2("head:  ", view.head.as_str()));
    let mut files_line = count_line("files: ", view.files.len());
    files_line.append(" entries");
    push_line(&mut out, files_line);
    push_file_lines(&mut out, &view.files);
    push_line(&mut out, count_line("commits: ", view.commits.len()));
    push_commit_lines(&mut out, &view.commits);
    push_line(&mut out, count_line("patches: ", view.patches.len()));
    push_patch_lines(&mut out, &view.patches);
    push_line(&mut out, count_line("issues: ", view.issues.len()));
    push_issue_lines(&mut out, &view.issues);
    push_line(&mut out, count_line("jobs: ", view.jobs.len()));
    push_job_lines(&mut out, &view.jobs);
    assert(string_views(out@) =~= dump_lines(*view));
    out
}

/// The report of a commit's changed paths: their count, then the first 6.
pub open spec fn paths_lines(short_id: Seq<char>, paths: Seq<String>) -> Seq<Seq<char>> {
    seq!["commit "@ + short_id + " paths: "@ + decimal(paths.len())] + Seq::new(
        at_most(paths.len(), 6),
        |i: int| "    "@ + paths[i]@,
    )
}

/// See [`paths_lines`].
pub fn paths_dump(short_id: &str, paths: &Vec<String>) -> (r: Vec<String>)
    ensures
        string_views(r@) == paths_lines(short_id@, paths@),
{
    let mut out: Vec<String> = Vec::new();
    let mut head = join2("commit ", short_id);
    head.append(" paths: ");
    head.append(decimal_u64(paths.len() as u64).as_str());
    push_line(&mut out, head);
    let mut i: usize = 0;
    while i < paths.len() && i < 6
        invariant
            i <= paths@.len(),
            i <= 6,
            string_views(out@) == seq!["commit "@ + short_id@ + " paths: "@ + decimal(paths@.len())]
                + Seq::new(i as nat, |k: int| "    "@ + paths@[k]@),
        decreases paths@.len() - i,
    {
        let ghost before = string_views(out@);
        push_line(&mut out, join2("    ", paths[i].as_str()));
        i += 1;
        assert(string_views(out@) =~= seq!["commit "@ + short_id@ + " paths: "@ + decimal(paths@.len())]
            + Seq::new(i as nat, |k: int| "    "@ + paths@[k]@));
    }
    assert(string_views(out@) =~= paths_lines(short_id@, paths@));
    out
}

} // verus!
