use browse::app_state::{BrowseState, MsgStep, OpenStep};
use browse::components::Tab;
use browse::gleam_bridge::{MSG_BACK, MSG_FAILED, MSG_LOADED, MSG_OPEN};
use browse::rad::RepoView;
use browse::tab_prefs::{record, RepoTabPrefs, TabPrefsStore};
use browse::view_api::{FileRow, IssueRow, PatchRow};

fn state(has_profile: bool) -> BrowseState {
    BrowseState::new(has_profile, None, Ok(0), None, Vec::new(), TabPrefsStore::default())
}

fn view(rid: &str) -> RepoView {
    RepoView {
        rid: rid.into(),
        name: "demo".into(),
        description: String::new(),
        head: "abcdef01".into(),
        head_oid: "abcdef0123".into(),
        readme: "# demo".into(),
        files: vec![
            FileRow { name: "src".into(), is_tree: true },
            FileRow { name: "README.md".into(), is_tree: false },
        ],
        commits: Vec::new(),
        patches: Vec::new(),
        issues: Vec::new(),
        jobs: Vec::new(),
    }
}

#[test]
fn startup_error_prefers_profile_error_unless_missing() {
    let s = BrowseState::new(
        false,
        Some("load profile: no Radicle profile found at ~".into()),
        Err("guest down".into()),
        Some("rad:zx".into()),
        Vec::new(),
        TabPrefsStore::default(),
    );
    assert_eq!(s.err.as_deref(), Some("guest down"));
    assert!(s.auto_open);
    assert_eq!(s.rid_input, "rad:zx");
    assert!(s.model.is_none());
    let s = BrowseState::new(false, Some("load profile: broken".into()), Err("g".into()), None, Vec::new(), TabPrefsStore::default());
    assert_eq!(s.err.as_deref(), Some("load profile: broken"));
    assert!(!s.inventory_loading);
}

#[test]
fn open_without_profile_fails() {
    let mut s = state(false);
    assert!(matches!(s.open_current(), OpenStep::NoProfile));
    assert_eq!(s.err.as_deref(), Some("No Radicle profile loaded."));
    s.no_profile_answer(Ok(2));
    assert_eq!(s.model, Some(2));
    assert_eq!(s.slots.strings[5], "No Radicle profile loaded.");
}

#[test]
fn open_then_core_then_cobs() {
    let mut s = state(true);
    assert!(s.inventory_loading);
    s.rid_input = "  ".into();
    assert!(matches!(s.open_current(), OpenStep::Nothing));
    s.rid_input = "rad:zdemo".into();
    match s.open_current() {
        OpenStep::Load(rid) => assert_eq!(rid, "rad:zdemo"),
        _ => panic!("expected a load"),
    }
    assert!(s.opening && s.receiving && !s.inventory_loading && !s.reload_in_flight);
    assert!(s.is_busy());
    assert!(!s.can_open());
    assert!(matches!(s.open_current(), OpenStep::Nothing));

    let fx = s.on_core(Ok(view("rad:zdemo")));
    assert!(fx.save_recent);
    assert_eq!(fx.guest_msg, Some(MSG_LOADED));
    assert_eq!(fx.read_readme.as_deref(), Some("README.md"));
    assert_eq!(s.repo_ui.tab, Tab::Files);
    assert_eq!(s.repo_ui.selected_file.as_deref(), Some("README.md"));
    assert!(s.repo_ui.file_is_md);
    assert_eq!(s.recent_repos[0].rid, "rad:zdemo");
    assert_eq!(s.slots.strings[1], "(no description)");
    assert!(!s.opening && s.cobs_loading);
    s.guest_answer(Ok(1));
    assert_eq!(s.model, Some(1));

    let patch = PatchRow {
        id: "p".into(),
        short_id: "p".into(),
        title: "t".into(),
        state: "open".into(),
        author: "a".into(),
        description: String::new(),
        head: "h".into(),
        base: "b".into(),
        revisions: 1,
        updated_ms: 1,
    };
    let issues: Vec<IssueRow> = Vec::new();
    let toast = s.on_cobs("rad:zdemo", Ok((vec![patch], issues, Vec::new())));
    assert!(!toast);
    assert_eq!(s.slots.patches.len(), 1);
    assert!(!s.cobs_loading && !s.receiving);
}

#[test]
fn reload_of_the_repo_on_screen() {
    let mut s = state(true);
    s.rid_input = "rad:zdemo".into();
    let _ = s.open_current();
    let _ = s.on_core(Ok(view("rad:zdemo")));
    s.guest_answer(Ok(1));
    let _ = s.on_cobs("rad:zdemo", Ok((Vec::new(), Vec::new(), Vec::new())));
    s.rid_input.clear();
    s.repo_ui.reload_requested = true;
    assert_eq!(s.reload_current().as_deref(), Some("rad:zdemo"));
    assert!(s.reload_in_flight);
    assert!(!s.repo_ui.reload_requested);
    let fx = s.on_core(Ok(view("rad:zdemo")));
    assert_eq!(fx.guest_msg, None);
    assert_eq!(s.recent_repos.len(), 1);
    assert!(s.on_cobs("rad:zdemo", Ok((Vec::new(), Vec::new(), Vec::new()))));
}

#[test]
fn failed_open_shows_the_error_screen() {
    let mut s = state(true);
    s.rid_input = "rad:zbad".into();
    let _ = s.open_current();
    let fx = s.on_core(Err("invalid RID: bad".into()));
    assert_eq!(fx.guest_msg, Some(MSG_FAILED));
    assert_eq!(s.slots.strings[5], "invalid RID: bad");
    assert_eq!(s.err.as_deref(), Some("invalid RID: bad"));
    assert!(!s.receiving && !s.opening && !s.cobs_loading);
    s.guest_answer(Err("trap".into()));
    assert_eq!(s.err.as_deref(), Some("trap"));
}

#[test]
fn cobs_for_another_repo_are_dropped() {
    let mut s = state(true);
    s.repo_ui.rid = "rad:zone".into();
    s.reload_in_flight = true;
    assert!(!s.on_cobs("rad:ztwo", Ok((Vec::new(), Vec::new(), Vec::new()))));
    assert!(!s.reload_in_flight);
    assert!(!s.on_cobs("rad:zone", Err("cob error".into())));
    assert_eq!(s.err.as_deref(), Some("cob error"));
}

#[test]
fn inventory_loads_when_the_channel_is_free() {
    let mut s = state(true);
    let (spawn, open) = s.frame_start();
    assert!(spawn);
    assert!(open.is_none());
    assert!(s.receiving);
    assert!(!s.start_inventory_load());
    s.on_inventory(Ok(Vec::new()));
    assert!(!s.receiving && !s.inventory_loading);
    s.on_inventory(Err("storage".into()));
    assert_eq!(s.err.as_deref(), Some("storage"));
}

#[test]
fn back_remembers_the_tab_and_clears_the_field() {
    let mut store = TabPrefsStore::default();
    record(
        &mut store,
        RepoTabPrefs {
            rid: "rad:zdemo".into(),
            tab: "commits".into(),
            patch_status: "open".into(),
            issue_status: "open".into(),
            job_status: "all".into(),
        },
    );
    let mut s = BrowseState::new(true, None, Ok(0), None, Vec::new(), store);
    s.rid_input = "rad:zdemo".into();
    let _ = s.open_current();
    let fx = s.on_core(Ok(view("rad:zdemo")));
    assert_eq!(s.repo_ui.tab, Tab::Commits);
    assert!(fx.read_readme.is_none());
    s.repo_ui.tab = Tab::Issues;
    s.repo_ui.prefs_dirty = true;
    assert!(s.persist_tab_prefs_if_dirty());
    assert_eq!(s.tab_prefs.repos[0].tab, "issues");
    assert!(!s.persist_tab_prefs_if_dirty());

    assert!(matches!(s.handle_msg(MSG_BACK), MsgStep::Update(m) if m == MSG_BACK));
    s.receiving = false;
    s.cobs_loading = false;
    s.repo_ui.tab = Tab::Jobs;
    let recent_before = s.recent_repos.len();
    let fx = s.message_answer(MSG_BACK, Ok(0));
    assert!(fx.save_prefs);
    assert_eq!(s.tab_prefs.repos.len(), 1);
    assert_eq!(s.tab_prefs.repos[0].rid, "rad:zdemo");
    assert_eq!(s.tab_prefs.repos[0].tab, "jobs");
    assert_eq!(s.tab_prefs.repos[0].patch_status, "open");
    assert_eq!(s.recent_repos.len(), recent_before);
    assert!(s.inventory_loading);
    assert!(s.receiving);
    assert!(fx.load_inventory);
    assert!(s.rid_input.is_empty());
    assert_eq!(s.model, Some(0));
    assert!(matches!(s.handle_msg(MSG_OPEN), MsgStep::Open(_)));
}

#[test]
fn paste_outcomes() {
    let mut s = state(true);
    assert_eq!(s.take_paste(None), "Clipboard unavailable \u{2014} copy a rad:z\u{2026} ID, then Paste");
    assert_eq!(s.take_paste(Some(" \n".into())), "Clipboard empty");
    assert_eq!(s.take_paste(Some("\u{feff} rad:zq ".into())), "RID pasted");
    assert_eq!(s.rid_input, "rad:zq");
}

#[test]
fn disconnect_stops_everything() {
    let mut s = state(true);
    s.rid_input = "rad:z1".into();
    let _ = s.open_current();
    s.on_disconnected();
    assert!(!s.is_busy() && !s.receiving);
}

#[test]
fn page_opens_and_drops_messages_while_opening() {
    let mut s = state(true);
    match s.open_rid("rad:zpage".to_string()) {
        Some(OpenStep::Load(rid)) => assert_eq!(rid, "rad:zpage"),
        _ => panic!("expected a load"),
    }
    assert_eq!(s.rid_input, "rad:zpage");
    assert!(s.open_rid("rad:zother".to_string()).is_none());
    assert!(matches!(s.page_message(MSG_BACK), MsgStep::Nothing));
}
