use browse::rad::push_capped;
use browse::order::sort_ranked;
use browse::rad::{
    changed_paths, commit_row, file_text, issue_row, job_row, job_run_row, list_rows,
    open_first, patch_row, profile_passphrase, readme_text, repo_summary, short_did, short_nid,
    short_oid, truncate_desc, PatchText, RadError, RepoSummary, MAX_DESC, MAX_README, MAX_TREE,
};
use std::cmp::Ordering;

#[test]
fn open_cobs_sort_first() {
    assert_eq!(open_first("open", "merged"), Ordering::Less);
    assert_eq!(open_first("closed", "open"), Ordering::Greater);
    assert_eq!(open_first("draft", "merged"), Ordering::Equal);
    assert_eq!(open_first("open", "open"), Ordering::Equal);
}

#[test]
fn short_forms() {
    assert_eq!(short_oid("0123456789abcdef"), "0123456");
    assert_eq!(short_oid("abc"), "abc");
    assert_eq!(short_did("did:key:z6MkabcdefghijklmnopWXYZ"), "z6Mkab\u{2026}WXYZ");
    assert_eq!(short_did("did:key:z6Mkshort"), "z6Mkshort");
    assert_eq!(short_did("nokeyprefixbutlong"), "nokeyp\u{2026}long");
    assert_eq!(short_nid("did:key:z6MkabcdefghijklmnopWXYZ"), "z6Mkabcdefgh\u{2026}");
    assert_eq!(short_nid("z6Mk"), "z6Mk");
}

#[test]
fn descriptions_are_trimmed_and_capped() {
    assert_eq!(truncate_desc("  hello \n"), "hello");
    let long = "x".repeat(MAX_DESC + 10);
    let cut = truncate_desc(&long);
    assert_eq!(cut, format!("{}\u{2026}", "x".repeat(MAX_DESC)));
}

#[test]
fn patches_sort_open_then_newest() {
    let rows = vec![
        patch_row("p1", "a", "merged", "did:key:z1", "", "h", "b", 1, 50),
        patch_row("p2", "b", "open", "did:key:z2", "", "h", "b", 1, 10),
        patch_row("p3", "c", "open", "did:key:z3", "", "h", "b", 1, 30),
        patch_row("p4", "d", "draft", "did:key:z4", "", "h", "b", 1, 90),
    ];
    let sorted = sort_ranked(rows);
    let ids: Vec<&str> = sorted.iter().map(|r| r.id.as_str()).collect();
    assert_eq!(ids, vec!["p3", "p2", "p4", "p1"]);
    assert_eq!(sorted[0].author, "z3");
}

#[test]
fn issues_sort_open_then_newest_stably() {
    let rows = vec![
        issue_row("i1", "a", "closed", "did:key:z1", "d", 0, 5),
        issue_row("i2", "b", "open", "did:key:z2", "d", 2, 5),
        issue_row("i3", "c", "open", "did:key:z3", "d", 1, 5),
    ];
    let sorted = sort_ranked(rows);
    let ids: Vec<&str> = sorted.iter().map(|r| r.id.as_str()).collect();
    assert_eq!(ids, vec!["i2", "i3", "i1"]);
}

#[test]
fn jobs_take_the_latest_run() {
    let runs = vec![
        job_run_row("did:key:z6MkNodeAAAAAAAAAA", "r1", "failed", "log1", 10),
        job_run_row("did:key:z6MkNodeBBBBBBBBBB", "r2", "succeeded", "log2", 30),
        job_run_row("did:key:z6MkNodeCCCCCCCCCC", "r3", "started", "log3", 30),
        job_run_row("n", "r4", "failed", "log4", 20),
    ];
    let job = job_row("0123456789", "abcdef0123", 3, runs);
    assert_eq!(job.status, "started");
    assert_eq!(job.updated_secs, 30);
    assert_eq!(job.run_count, 4);
    assert_eq!(job.node_count, 3);
    assert_eq!(job.short_id, "0123456");
    assert_eq!(job.short_commit, "abcdef0");
    let order: Vec<&str> = job.runs.iter().map(|r| r.run_id.as_str()).collect();
    assert_eq!(order, vec!["r2", "r3", "r4", "r1"]);
    assert_eq!(job.runs[0].node, "z6MkNodeBBBB\u{2026}");

    let idle = job_row("j", "c", 0, Vec::new());
    assert_eq!(idle.status, "none");
    assert_eq!(idle.updated_secs, 0);
}

#[test]
fn jobs_sort_newest_then_id() {
    let a = job_row("b", "c", 0, vec![job_run_row("n", "r", "started", "", 5)]);
    let b = job_row("a", "c", 0, vec![job_run_row("n", "r", "started", "", 5)]);
    let c = job_row("c", "c", 0, vec![job_run_row("n", "r", "started", "", 9)]);
    let sorted = sort_ranked(vec![a, b, c]);
    let ids: Vec<&str> = sorted.iter().map(|r| r.id.as_str()).collect();
    assert_eq!(ids, vec!["c", "a", "b"]);
}

#[test]
fn commits_summarize_the_first_line() {
    let c = commit_row("0123456789", Some("  Fix it\r\n\nmore\n"), Some("Ann"));
    assert_eq!(c.summary, "Fix it");
    assert_eq!(c.short_id, "0123456");
    assert_eq!(c.author, "Ann");
    let c = commit_row("ab", None, None);
    assert_eq!(c.summary, "(no message)");
    assert_eq!(c.author, "unknown");
    let c = commit_row("ab", Some("one line"), None);
    assert_eq!(c.summary, "one line");
}

#[test]
fn tree_listing_dirs_first_then_name() {
    let rows = list_rows(vec![
        (Some("b.txt".into()), false),
        (Some("Src".into()), true),
        (None, false),
        (Some("A.md".into()), false),
        (Some("docs".into()), true),
    ]);
    let names: Vec<&str> = rows.iter().map(|r| r.name.as_str()).collect();
    assert_eq!(names, vec!["docs", "Src", "?", "A.md", "b.txt"]);
    let many: Vec<(Option<String>, bool)> =
        (0..MAX_TREE + 3).map(|i| (Some(format!("f{i:03}")), false)).collect();
    assert_eq!(list_rows(many).len(), MAX_TREE);
}

#[test]
fn inventory_sorted_by_lowercase_name() {
    let repos = vec![
        repo_summary("rad:z1", Some(("beta", "b"))),
        repo_summary("rad:z2", Some(("Alpha", ""))),
        repo_summary("rad:z3", None),
    ];
    assert_eq!(repos[2].name, "rad:z3");
    assert_eq!(repos[2].description, "");
    let sorted: Vec<RepoSummary> = sort_ranked(repos);
    let names: Vec<&str> = sorted.iter().map(|r| r.name.as_str()).collect();
    assert_eq!(names, vec!["Alpha", "beta", "rad:z3"]);
}

#[test]
fn changed_paths_dedupe_and_sort() {
    let paths = vec!["src/b.rs".to_string(), "README".into(), "src/b.rs".into(), "Cargo.toml".into()];
    assert_eq!(changed_paths(paths), vec!["Cargo.toml", "README", "src/b.rs"]);
}

#[test]
fn file_text_cases() {
    assert_eq!(file_text(5, b"hello").unwrap(), "hello");
    assert_eq!(file_text(3, b"a\0b").unwrap(), "(binary file, 3 bytes)");
    match file_text(300_000, b"") {
        Err(RadError::Other(m)) => assert_eq!(m, "file too large (300000 bytes)"),
        _ => panic!("expected too large"),
    }
    match file_text(2, &[0xff, 0xfe]) {
        Err(RadError::Other(m)) => assert_eq!(m, "file is not valid UTF-8"),
        _ => panic!("expected invalid UTF-8"),
    }
}

#[test]
fn readme_picks_first_utf8_candidate() {
    let blobs = vec![None, Some(vec![0xff]), Some(b"# Hi".to_vec()), Some(b"later".to_vec())];
    assert_eq!(readme_text(&blobs), "# Hi");
    assert_eq!(readme_text(&[None, None]), "(no README)");
    let long = vec![b'r'; MAX_README + 1];
    assert_eq!(readme_text(&[Some(long)]), format!("{}\u{2026}", "r".repeat(MAX_README)));
}

#[test]
fn patch_text_accumulates_and_truncates() {
    let mut p = PatchText::new();
    assert!(p.add_line('+', b"added\n"));
    assert!(p.add_line('H', b"@@ -1 +1 @@\n"));
    assert!(p.add_line(' ', &[0xff]));
    assert_eq!(p.finish(), "+added\n@@ -1 +1 @@\n ");
    assert_eq!(PatchText::new().finish(), "(empty patch)");

    let mut big = PatchText::new();
    let chunk = vec![b'x'; 150_000];
    assert!(big.add_line('+', &chunk));
    assert!(!big.add_line('-', &chunk));
    let text = big.finish();
    assert!(text.ends_with("\n\u{2026} (diff truncated)"));
}

#[test]
fn error_messages() {
    assert_eq!(RadError::Rid("bad".into()).message(), "invalid RID: bad");
    assert_eq!(RadError::Profile("x".into()).message(), "load profile: x");
    assert_eq!(RadError::Open("x".into()).message(), "open repo: x");
    assert_eq!(RadError::Identity("x".into()).message(), "identity: x");
    assert_eq!(RadError::Head("x".into()).message(), "head: x");
    assert_eq!(RadError::Other("plain".into()).message(), "plain");
}

#[test]
fn passphrase_is_trimmed_and_optional() {
    assert_eq!(profile_passphrase(Some("  secret ")), Some("secret".to_string()));
    assert_eq!(profile_passphrase(Some("   ")), None);
    assert_eq!(profile_passphrase(None), None);
}

#[test]
fn capped_listing_stops_at_the_cap() {
    let mut rows = Vec::new();
    assert!(push_capped(&mut rows, 1, 3));
    assert!(push_capped(&mut rows, 2, 3));
    assert!(!push_capped(&mut rows, 3, 3));
    assert!(!push_capped(&mut rows, 4, 3));
    assert_eq!(rows, vec![1, 2, 3]);
}
