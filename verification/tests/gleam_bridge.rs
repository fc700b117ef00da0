use browse::gleam_bridge::Slots;
use browse::rad::{RepoSummary, RepoView};
use browse::view_api::FileRow;

fn view(description: &str) -> RepoView {
    RepoView {
        rid: "rad:z3gq".to_string(),
        name: "heartwood".to_string(),
        description: description.to_string(),
        head: "1a2b3c4d".to_string(),
        head_oid: "1a2b3c4d5e6f".to_string(),
        readme: "# Heartwood".to_string(),
        files: vec![FileRow { name: "src".to_string(), is_tree: true }],
        commits: Vec::new(),
        patches: Vec::new(),
        issues: Vec::new(),
        jobs: Vec::new(),
    }
}

#[test]
fn loaded_repo_slots() {
    let slots = Slots::from_view(&view("Radicle core"));
    assert_eq!(
        slots.strings,
        vec!["heartwood", "Radicle core", "rad:z3gq", "head 1a2b3c4d", "# Heartwood", ""]
    );
    assert_eq!(slots.files.len(), 1);
    let slots = Slots::from_view(&view(""));
    assert_eq!(slots.string(1), "(no description)");
}

#[test]
fn error_and_enter_slots() {
    let slots = Slots::from_error("not found");
    assert_eq!(slots.strings, vec!["", "", "", "", "", "not found"]);
    let repos = vec![RepoSummary {
        rid: "rad:z1".to_string(),
        name: "a".to_string(),
        description: String::new(),
    }];
    let slots = Slots::for_enter(&repos, "rad:");
    assert!(slots.strings.is_empty());
    assert_eq!(slots.local_repos.len(), 1);
    assert_eq!(slots.rid_query, "rad:");
}
