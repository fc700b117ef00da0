use browse::components::browser::{
    is_markdown_path, issue_listing, issue_matches, job_listing, looks_like_md, parent_dir, patch_listing,
    patch_matches, readme_candidate, short_oid_display, short_uuid,
};
use browse::components::{IssueStatus, JobStatus, PatchStatus, RepoUi, Tab};
use browse::view_api::{FileRow, IssueRow, JobRow, PatchRow};

fn patch(id: &str, title: &str, state: &str) -> PatchRow {
    PatchRow {
        id: id.to_string(),
        short_id: id.chars().take(7).collect(),
        title: title.to_string(),
        state: state.to_string(),
        author: "z6Mkab…wxyz".to_string(),
        description: String::new(),
        head: "bbbbbbbbbb".to_string(),
        base: "aaaaaaaaaa".to_string(),
        revisions: 1,
        updated_ms: 0,
    }
}

fn issue(id: &str, title: &str, state: &str) -> IssueRow {
    IssueRow {
        id: id.to_string(),
        short_id: id.chars().take(7).collect(),
        title: title.to_string(),
        state: state.to_string(),
        author: "alice".to_string(),
        description: "Crash on start".to_string(),
        replies: 0,
        updated_ms: 0,
    }
}

fn job(id: &str, status: &str) -> JobRow {
    JobRow {
        id: id.to_string(),
        short_id: id.to_string(),
        commit: "c0ffee".to_string(),
        short_commit: "c0ffee".to_string(),
        status: status.to_string(),
        run_count: 1,
        node_count: 1,
        updated_secs: 0,
        runs: Vec::new(),
    }
}

fn file(name: &str, is_tree: bool) -> FileRow {
    FileRow { name: name.to_string(), is_tree }
}

#[test]
fn status_filters_select_states() {
    assert!(PatchStatus::Open.matches("open"));
    assert!(!PatchStatus::Open.matches("draft"));
    assert!(PatchStatus::All.matches("anything"));
    assert!(IssueStatus::Closed.matches("closed"));
    assert!(!IssueStatus::Closed.matches("open"));
    assert!(JobStatus::Failed.matches("failed"));
    assert!(!JobStatus::Started.matches("succeeded"));
    assert_eq!(PatchStatus::Archived.label(), "Archived");
    assert_eq!(JobStatus::default(), JobStatus::All);
}

#[test]
fn patch_listing_counts_the_status_and_filters_the_search() {
    let patches = vec![
        patch("p1", "Fix parser", "open"),
        patch("p2", "Add docs", "merged"),
        patch("p3", "Parser speedup", "open"),
    ];
    let (in_status, shown) = patch_listing(&patches, PatchStatus::Open, "  PARSER ");
    assert_eq!(in_status, 2);
    assert_eq!(shown, vec![0, 2]);
    let (in_status, shown) = patch_listing(&patches, PatchStatus::All, "docs");
    assert_eq!(in_status, 3);
    assert_eq!(shown, vec![1]);
    assert!(patch_matches(&patches[1], ""));
    assert!(patch_matches(&patches[0], "aaaa"));
    assert!(!patch_matches(&patches[0], "nothing"));
}

#[test]
fn issue_and_job_listings() {
    let issues = vec![issue("i1", "Crash", "open"), issue("i2", "Typo", "closed")];
    assert_eq!(issue_listing(&issues, IssueStatus::Closed, ""), (1, vec![1]));
    assert_eq!(issue_listing(&issues, IssueStatus::All, "crash on"), (2, vec![0, 1]));
    assert!(issue_matches(&issues[0], "alice"));
    let jobs = vec![job("j1", "failed"), job("j2", "succeeded"), job("j3", "failed")];
    assert_eq!(job_listing(&jobs, JobStatus::Failed), vec![0, 2]);
    assert_eq!(job_listing(&jobs, JobStatus::All), vec![0, 1, 2]);
}

#[test]
fn short_forms_and_markdown_guess() {
    assert_eq!(short_uuid("0123456789abcdef"), "01234567");
    assert_eq!(short_uuid("abc"), "abc");
    assert_eq!(short_oid_display("deadbeefcafe"), "deadbee");
    assert!(looks_like_md("# Title"));
    assert!(looks_like_md("see [x](y)"));
    assert!(looks_like_md("two\nlines"));
    assert!(!looks_like_md("plain words"));
}

#[test]
fn paths_and_extensions() {
    assert_eq!(parent_dir("src/ui/mod.rs"), "src/ui");
    assert_eq!(parent_dir("Cargo.toml"), "");
    assert!(is_markdown_path("docs/guide.md"));
    assert!(is_markdown_path("NOTES.markdown"));
    assert!(!is_markdown_path("README"));
    assert!(!is_markdown_path("main.rs"));
}

#[test]
fn readme_is_picked_by_name_order_ignoring_case() {
    let files = vec![file("readme", true), file("Readme.TXT", false), file("README.MD", false)];
    assert_eq!(readme_candidate(&files), Some(2));
    let files = vec![file("src", true), file("main.rs", false)];
    assert_eq!(readme_candidate(&files), None);
}

#[test]
fn opening_the_readme_selects_it_on_the_files_tab() {
    let mut ui = RepoUi::default();
    ui.tab = Tab::Jobs;
    let files = vec![file("src", true), file("README.md", false)];
    assert_eq!(ui.open_readme_if_present(&files), Some("README.md".to_string()));
    assert_eq!(ui.tab, Tab::Files);
    assert_eq!(ui.selected_file.as_deref(), Some("README.md"));
    assert!(ui.file_is_md);
    ui.apply_file_content(Ok("# Hi".to_string()));
    assert_eq!(ui.file_content, "# Hi");
}

#[test]
fn pressing_tabs_switches_or_reloads() {
    let mut ui = RepoUi::default();
    ui.press_tab(Tab::Patches);
    assert_eq!(ui.tab, Tab::Patches);
    assert!(ui.prefs_dirty && !ui.reload_requested);
    ui.press_tab(Tab::Patches);
    assert!(ui.reload_requested);
    let mut ui = RepoUi::default();
    ui.press_tab(Tab::Files);
    assert!(!ui.prefs_dirty && !ui.reload_requested);
}

#[test]
fn directories_are_entered_and_left() {
    let mut ui = RepoUi::default();
    ui.reset_for("rad:z1", "abc", &[file("src", true)]);
    assert_eq!(ui.join_cwd("src"), "src");
    ui.apply_dir_listing("src", Ok(vec![file("ui", true)]));
    assert_eq!(ui.cwd, "src");
    assert_eq!(ui.join_cwd("ui"), "src/ui");
    assert_eq!(ui.parent_cwd(), Some(String::new()));
    ui.apply_dir_listing("src/ui", Err("gone".to_string()));
    assert_eq!(ui.cwd, "src");
    assert_eq!(ui.file_error.as_deref(), Some("gone"));
}

#[test]
fn commit_selection_flows_to_its_first_diff() {
    let mut ui = RepoUi::default();
    assert_eq!(ui.begin_select_diff_path("a.rs"), None);
    ui.begin_select_commit("c1");
    let first = ui.apply_commit_paths(Ok(vec!["a.rs".to_string(), "b.rs".to_string()]));
    assert_eq!(first.as_deref(), Some("a.rs"));
    assert_eq!(ui.begin_select_diff_path("a.rs").as_deref(), Some("c1"));
    ui.apply_commit_diff(Ok("+x".to_string()));
    assert_eq!(ui.diff_text, "+x");
    ui.clear_commit_selection();
    assert!(ui.selected_commit.is_none() && ui.commit_paths.is_empty() && ui.diff_text.is_empty());
}

#[test]
fn patch_selection_and_status_change() {
    let patches = vec![patch("p1", "Fix", "open"), patch("p2", "Docs", "merged")];
    let mut ui = RepoUi::default();
    ui.begin_select_patch(&patches[0]);
    assert_eq!(ui.patch_base, "aaaaaaaaaa");
    assert_eq!(ui.apply_patch_paths(Ok(vec!["x".to_string()])).as_deref(), Some("x"));
    assert!(ui.begin_patch_diff_path("x"));
    ui.apply_patch_diff(Err("bad".to_string()));
    assert_eq!(ui.patch_error.as_deref(), Some("bad"));
    ui.set_patch_status(PatchStatus::Merged, &patches);
    assert_eq!(ui.patch_status, PatchStatus::Merged);
    assert!(ui.prefs_dirty);
    assert!(ui.selected_patch.is_none() && ui.patch_paths.is_empty());
}

#[test]
fn reload_prunes_vanished_selections() {
    let mut ui = RepoUi::default();
    ui.selected_issue = Some("i9".to_string());
    ui.selected_job = Some("j1".to_string());
    ui.prune_cob_selections(&[], &[issue("i1", "A", "open")], &[job("j1", "failed")]);
    assert!(ui.selected_issue.is_none());
    assert_eq!(ui.selected_job.as_deref(), Some("j1"));
}
