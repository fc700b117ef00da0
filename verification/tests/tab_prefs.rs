use browse::components::{IssueStatus, JobStatus, PatchStatus, RepoUi, Tab};
use browse::tab_prefs::{apply_to_ui, from_ui, get, record, RepoTabPrefs, TabPrefsStore, MAX_REPOS};

fn prefs(rid: &str, tab: &str, patch: &str, issue: &str, job: &str) -> RepoTabPrefs {
    RepoTabPrefs {
        rid: rid.into(),
        tab: tab.into(),
        patch_status: patch.into(),
        issue_status: issue.into(),
        job_status: job.into(),
    }
}

#[test]
fn tab_prefs_record_dedupes_and_mru() {
    let mut store = TabPrefsStore::default();
    record(&mut store, prefs("rad:z1", "patches", "open", "open", "all"));
    record(&mut store, prefs("rad:z2", "issues", "open", "closed", "all"));
    record(&mut store, prefs("rad:z1", "jobs", "draft", "open", "failed"));
    assert_eq!(store.repos.len(), 2);
    assert_eq!(store.repos[0].rid, "rad:z1");
    assert_eq!(store.repos[0].tab, "jobs");
    assert_eq!(store.repos[0].patch_status, "draft");
    assert_eq!(store.repos[1].rid, "rad:z2");
}

#[test]
fn roundtrip_ui_prefs() {
    let mut ui = RepoUi {
        rid: "rad:zabc".into(),
        tab: Tab::Patches,
        patch_status: PatchStatus::Merged,
        issue_status: IssueStatus::Closed,
        job_status: JobStatus::Succeeded,
        ..RepoUi::default()
    };
    let prefs = from_ui(&ui);
    assert_eq!(prefs.tab, "patches");
    assert_eq!(prefs.patch_status, "merged");
    assert_eq!(prefs.issue_status, "closed");
    assert_eq!(prefs.job_status, "succeeded");

    ui = RepoUi::default();
    apply_to_ui(&prefs, &mut ui);
    assert_eq!(ui.tab, Tab::Patches);
    assert_eq!(ui.patch_status, PatchStatus::Merged);
    assert_eq!(ui.issue_status, IssueStatus::Closed);
    assert_eq!(ui.job_status, JobStatus::Succeeded);
}

#[test]
fn parse_unknown_falls_back() {
    let prefs = prefs("rad:z", "nope", "weird", "nah", "zzz");
    let mut ui = RepoUi { tab: Tab::Jobs, ..RepoUi::default() };
    apply_to_ui(&prefs, &mut ui);
    assert_eq!(ui.tab, Tab::Files);
    assert_eq!(ui.patch_status, PatchStatus::Open);
    assert_eq!(ui.issue_status, IssueStatus::Open);
    assert_eq!(ui.job_status, JobStatus::All);
}

#[test]
fn tab_prefs_record_caps_at_max() {
    let mut store = TabPrefsStore::default();
    for i in 0..(MAX_REPOS + 5) {
        record(&mut store, prefs(&format!("rad:z{i}"), "files", "open", "open", "all"));
    }
    assert_eq!(store.repos.len(), MAX_REPOS);
    assert_eq!(store.repos[0].rid, format!("rad:z{}", MAX_REPOS + 4));
}

#[test]
fn get_finds_the_recorded_prefs() {
    let mut store = TabPrefsStore::default();
    record(&mut store, prefs("rad:z1", "commits", "open", "open", "all"));
    record(&mut store, prefs("rad:z2", "issues", "all", "closed", "started"));
    let found = get(&store, "rad:z1").expect("recorded");
    assert_eq!(found.tab, "commits");
    assert!(get(&store, "rad:z3").is_none());
}

#[test]
fn recording_leaves_other_repos_as_they_were() {
    let mut store = TabPrefsStore::default();
    record(&mut store, prefs("rad:z1", "patches", "open", "all", "all"));
    record(&mut store, prefs("rad:z2", "issues", "merged", "closed", "failed"));
    let before = get(&store, "rad:z1").cloned();
    record(&mut store, prefs("rad:z2", "jobs", "draft", "open", "started"));
    assert_eq!(get(&store, "rad:z1").map(|p| p.tab.clone()), before.map(|p| p.tab));
    assert_eq!(get(&store, "rad:z2").map(|p| p.tab.as_str()), Some("jobs"));
    assert!(get(&store, "rad:z3").is_none());
}
