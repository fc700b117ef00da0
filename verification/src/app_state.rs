//! The viewer's state between frames: the guest model, the background loads
//! in flight (repo open, COB lists, local inventory), and what each user
//! action or finished load changes. The host runs the loads and the guest
//! calls that the steps ask for and hands their results back.

use vstd::prelude::*;
use vstd::string::*;

use crate::components::browser::{pruned, readme_opened};
use crate::components::{IssueStatus, JobStatus, PatchStatus, RepoUi, Tab};
use crate::gleam_bridge::{string_views, view_strings, view_strings_of, MSG_BACK, MSG_FAILED, MSG_LOADED, MSG_OPEN};
use crate::keyboard::{normalize_paste, strip_boms};
use crate::markdown::opt_view;
use crate::rad::{RepoSummary, RepoView};
use crate::recent::{recorded_recent, RecentRepo};
use crate::tab_prefs::{
    apply_to_ui, first_for, from_ui, get, issue_status_named, job_status_named, or_default,
    patch_status_named, prefs_of, record, recorded, tab_named, RepoTabPrefs, TabPrefsStore,
};
use crate::text::{contains, dup_vec, has_substring, owned, trim, trim_ws};
use crate::view_api::{FileRow, IssueRow, JobRow, PatchRow, ViewModel};

verus! {

/// The error shown when an open is asked for without a profile.
pub open spec fn no_profile_text() -> Seq<char> {
    "No Radicle profile loaded."@
}

/// The error shown at startup: a missing profile is expected (the create
/// form handles it), so only the guest's error is shown then; otherwise the
/// profile error wins over the guest's.
pub open spec fn startup_error(profile_err: Option<Seq<char>>, guest_err: Option<Seq<char>>) -> Option<Seq<char>> {
    match profile_err {
        Some(e) => if has_substring(e, "no Radicle profile found"@) {
            guest_err
        } else {
            Some(e)
        },
        None => guest_err,
    }
}

/// Host state of the viewer.
pub struct BrowseState {
    /// A Radicle profile is loaded.
    pub has_profile: bool,
    /// The guest model, once the guest started.
    pub model: Option<i64>,
    pub rid_input: String,
    pub repo_filter: String,
    pub slots: ViewModel,
    pub repo_ui: RepoUi,
    pub local_repos: Vec<RepoSummary>,
    pub recent_repos: Vec<RecentRepo>,
    pub tab_prefs: TabPrefsStore,
    pub err: Option<String>,
    /// Results of background work are awaited.
    pub receiving: bool,
    /// Waiting for the core of a repo open.
    pub opening: bool,
    /// Patches / issues / jobs still loading after the core.
    pub cobs_loading: bool,
    /// The local inventory is loading.
    pub inventory_loading: bool,
    /// The open in flight reloads the repo already on screen.
    pub reload_in_flight: bool,
    /// Open the RID given at startup on the first frame.
    pub auto_open: bool,
}

/// What a request to open the RID field asks the host to do.
pub enum OpenStep {
    /// No profile: the error is set; the host tells the guest the open
    /// failed (when it has a model) and passes the answer to
    /// [`BrowseState::no_profile_answer`].
    NoProfile,
    /// Nothing to do (blank RID, or a load already running).
    Nothing,
    /// Start loading this RID in the background.
    Load(String),
}

/// What a finished repo-open core asks the host to do.
pub struct CoreEffects {
    /// Persist the recent list.
    pub save_recent: bool,
    /// Read this README file for the Files tab.
    pub read_readme: Option<String>,
    /// Send this message to the guest and pass its answer to
    /// [`BrowseState::guest_answer`].
    pub guest_msg: Option<i64>,
}

/// What a guest message asks the host to do.
pub enum MsgStep {
    /// The message opens the RID field.
    Open(OpenStep),
    /// Send the message to the guest and pass its answer to
    /// [`BrowseState::message_answer`].
    Update(i64),
    /// No guest model to send it to.
    Nothing,
}

/// What a guest message's answer asks the host to do.
pub struct MessageEffects {
    /// Persist the tab preferences.
    pub save_prefs: bool,
    /// Start loading the local inventory.
    pub load_inventory: bool,
}

/// A `String` option taken as text.
pub open spec fn opt_text(o: Option<String>) -> Option<Seq<char>> {
    opt_view(o)
}

/// What opening the RID field does to state `s` (see
/// [`BrowseState::open_current`]): `after` is the new state and `step` what
/// the host is asked to do.
pub open spec fn opened(s: BrowseState, after: BrowseState, step: OpenStep) -> bool {
    if !s.has_profile {
        step is NoProfile && after == (BrowseState { err: after.err, ..s }) && opt_text(after.err) == Some(
            no_profile_text(),
        )
    } else if trim_ws(s.rid_input@).len() == 0 || s.opening || s.cobs_loading {
        step is Nothing && after == s
    } else {
        (step matches OpenStep::Load(rid) && rid@ == s.rid_input@) && after == (BrowseState {
            receiving: true,
            opening: true,
            cobs_loading: false,
            inventory_loading: false,
            reload_in_flight: s.model == Some(1i64) && s.repo_ui.rid@.len() > 0 && s.repo_ui.rid@
                == s.rid_input@,
            err: None,
            ..s
        })
    }
}

/// The inventory part of a frame's start (see [`BrowseState::frame_start`]):
/// whether to spawn the load, and the state after.
pub open spec fn inventory_step(s: BrowseState) -> (bool, BrowseState) {
    if s.inventory_loading && !s.receiving && !s.opening && !s.cobs_loading {
        if s.has_profile {
            (true, BrowseState { receiving: true, ..s })
        } else {
            (false, BrowseState { inventory_loading: false, ..s })
        }
    } else {
        (false, s)
    }
}

impl BrowseState {
    /// The state at startup.
    pub fn new(
        has_profile: bool,
        profile_err: Option<String>,
        guest: Result<i64, String>,
        initial_rid: Option<String>,
        recent_repos: Vec<RecentRepo>,
        tab_prefs: TabPrefsStore,
    ) -> (r: Self)
        ensures
            r.has_profile == has_profile,
            r.model == match guest {
                Ok(n) => Some(n),
                Err(_) => None::<i64>,
            },
            r.rid_input@ == match initial_rid {
                Some(s) => s@,
                None => Seq::<char>::empty(),
            },
            r.repo_filter@.len() == 0,
            r.slots.is_empty_model(),
            r.repo_ui.is_fresh() && r.repo_ui.rid@.len() == 0 && r.repo_ui.head_oid@.len() == 0,
            r.local_repos@.len() == 0,
            r.recent_repos == recent_repos,
            r.tab_prefs == tab_prefs,
            opt_text(r.err) == startup_error(
                opt_text(profile_err),
                match guest {
                    Ok(_) => None,
                    Err(e) => Some(e@),
                },
            ),
            !r.receiving && !r.opening && !r.cobs_loading && !r.reload_in_flight,
            r.inventory_loading == has_profile,
            r.auto_open == initial_rid is Some,
    {
        let (model, guest_err) = match guest {
            Ok(n) => (Some(n), None),
            Err(e) => (None, Some(e)),
        };
        let err = match profile_err {
            Some(e) => if contains(e.as_str(), "no Radicle profile found") {
                guest_err
            } else {
                Some(e)
            },
            None => guest_err,
        };
        let auto_open = initial_rid.is_some();
        let rid_input = match initial_rid {
            Some(s) => s,
            None => String::new(),
        };
        BrowseState {
            has_profile,
            model,
            rid_input,
            repo_filter: String::new(),
            slots: ViewModel::default(),
            repo_ui: RepoUi::default(),
            local_repos: Vec::new(),
            recent_repos,
            tab_prefs,
            err,
            receiving: false,
            opening: false,
            cobs_loading: false,
            inventory_loading: has_profile,
            reload_in_flight: false,
            auto_open,
        }
    }

    /// Some background load is running.
    pub fn is_busy(&self) -> (r: bool)
        ensures
            r == (self.opening || self.cobs_loading || self.inventory_loading),
    {
        self.opening || self.cobs_loading || self.inventory_loading
    }

    /// A repo can be opened now: no open is loading its core or COBs.
    pub fn can_open(&self) -> (r: bool)
        ensures
            r == (!self.opening && !self.cobs_loading),
    {
        !self.opening && !self.cobs_loading
    }

    /// Start a background open of `rid`; `true` when the host should spawn
    /// it. A load already running for a repo keeps the state as it is.
    pub fn start_load(&mut self, rid: &str) -> (spawn: bool)
        ensures
            spawn == (!old(self).opening && !old(self).cobs_loading),
            spawn ==> *final(self) == (BrowseState {
                receiving: true,
                opening: true,
                cobs_loading: false,
                inventory_loading: false,
                reload_in_flight: old(self).model == Some(1i64) && old(self).repo_ui.rid@.len() > 0
                    && old(self).repo_ui.rid@ == rid@,
                err: None,
                ..*old(self)
            }),
            !spawn ==> *final(self) == *old(self),
    {
        if self.opening || self.cobs_loading {
            return false;
        }
        self.receiving = true;
        self.opening = true;
        self.cobs_loading = false;
        self.inventory_loading = false;
        self.reload_in_flight = self.model == Some(1i64) && !self.repo_ui.rid.as_str().is_empty()
            && crate::text::str_eq(self.repo_ui.rid.as_str(), rid);
        self.err = None;
        true
    }

    /// Start loading the local inventory; `true` when the host should spawn
    /// it. A repo open in flight owns the result channel, so the inventory
    /// waits for it.
    pub fn start_inventory_load(&mut self) -> (spawn: bool)
        ensures
            spawn == (!old(self).opening && !old(self).cobs_loading && old(self).has_profile
                && !old(self).receiving),
            spawn ==> *final(self) == (BrowseState {
                receiving: true,
                inventory_loading: true,
                ..*old(self)
            }),
            !spawn && !old(self).opening && !old(self).cobs_loading && !old(self).has_profile
                ==> *final(self) == (BrowseState { inventory_loading: false, ..*old(self) }),
            !spawn && (old(self).opening || old(self).cobs_loading || old(self).has_profile)
                ==> *final(self) == *old(self),
    {
        if self.opening || self.cobs_loading {
            return false;
        }
        if !self.has_profile {
            self.inventory_loading = false;
            return false;
        }
        if self.receiving {
            return false;
        }
        self.receiving = true;
        self.inventory_loading = true;
        true
    }

    /// Ask for the local inventory again; `true` when the host should spawn
    /// the load now (otherwise it starts once the running open finishes).
    pub fn refresh_local_repos(&mut self) -> (spawn: bool)
        ensures
            !old(self).has_profile ==> !spawn && *final(self) == (BrowseState {
                inventory_loading: false,
                ..*old(self)
            }),
            old(self).has_profile ==> spawn == (!old(self).opening && !old(self).cobs_loading
                && !old(self).receiving),
            old(self).has_profile && spawn ==> *final(self) == (BrowseState {
                receiving: true,
                inventory_loading: true,
                ..*old(self)
            }),
            old(self).has_profile && !spawn ==> *final(self) == (BrowseState {
                inventory_loading: true,
                ..*old(self)
            }),
    {
        if !self.has_profile {
            self.inventory_loading = false;
            return false;
        }
        self.inventory_loading = true;
        self.start_inventory_load()
    }

    /// Open the repo in the RID field (Open button, Enter, a list click).
    pub fn open_current(&mut self) -> (step: OpenStep)
        ensures
            !old(self).has_profile ==> step is NoProfile && *final(self) == (BrowseState {
                err: final(self).err,
                ..*old(self)
            }) && opt_text(final(self).err) == Some(no_profile_text()),
            old(self).has_profile && trim_ws(old(self).rid_input@).len() == 0 ==> step is Nothing
                && *final(self) == *old(self),
            old(self).has_profile && trim_ws(old(self).rid_input@).len() > 0 && (old(self).opening
                || old(self).cobs_loading) ==> step is Nothing && *final(self) == *old(self),
            old(self).has_profile && trim_ws(old(self).rid_input@).len() > 0 && !old(self).opening
                && !old(self).cobs_loading ==> (step matches OpenStep::Load(rid) && rid@ == old(
                self,
            ).rid_input@) && *final(self) == (BrowseState {
                receiving: true,
                opening: true,
                cobs_loading: false,
                inventory_loading: false,
                reload_in_flight: old(self).model == Some(1i64) && old(self).repo_ui.rid@.len() > 0
                    && old(self).repo_ui.rid@ == old(self).rid_input@,
                err: None,
                ..*old(self)
            }),
            opened(*old(self), *final(self), step),
    {
        if !self.has_profile {
            self.err = Some(owned("No Radicle profile loaded."));
            return OpenStep::NoProfile;
        }
        let rid = self.rid_input.clone();
        if trim(rid.as_str()).is_empty() {
            return OpenStep::Nothing;
        }
        if self.start_load(rid.as_str()) {
            OpenStep::Load(rid)
        } else {
            OpenStep::Nothing
        }
    }

    /// The guest's answer to the failed open without a profile: on success
    /// the new model shows the error.
    pub fn no_profile_answer(&mut self, answer: Result<i64, String>)
        ensures
            match answer {
                Ok(n) => *final(self) == (BrowseState {
                    model: Some(n),
                    slots: final(self).slots,
                    ..*old(self)
                }) && string_views(final(self).slots.strings@) == seq![
                    Seq::<char>::empty(),
                    Seq::<char>::empty(),
                    Seq::<char>::empty(),
                    Seq::<char>::empty(),
                    Seq::<char>::empty(),
                    no_profile_text(),
                ],
                Err(_) => *final(self) == *old(self),
            },
    {
        if let Ok(n) = answer {
            self.model = Some(n);
            self.slots = ViewModel::from_error("No Radicle profile loaded.");
        }
    }

    /// Reload the repo on screen (its tab pressed again); `Some(rid)` when
    /// the host should spawn the load. The RID field wins over the repo on
    /// screen when it holds one.
    pub fn reload_current(&mut self) -> (r: Option<String>)
        ensures
            ({
                let rid = if trim_ws(old(self).rid_input@).len() == 0 {
                    old(self).repo_ui.rid@
                } else {
                    old(self).rid_input@
                };
                let cleared = BrowseState {
                    repo_ui: RepoUi { reload_requested: false, ..old(self).repo_ui },
                    ..*old(self)
                };
                if !old(self).has_profile || trim_ws(rid).len() == 0 || old(self).opening
                    || old(self).cobs_loading {
                    r is None && *final(self) == cleared
                } else {
                    (r matches Some(s) && s@ == rid) && *final(self) == (BrowseState {
                        receiving: true,
                        opening: true,
                        cobs_loading: false,
                        inventory_loading: false,
                        reload_in_flight: cleared.model == Some(1i64) && cleared.repo_ui.rid@.len()
                            > 0 && cleared.repo_ui.rid@ == rid,
                        err: None,
                        ..cleared
                    })
                }
            }),
    {
        if !self.has_profile {
            self.repo_ui.reload_requested = false;
            return None;
        }
        let rid = if trim(self.rid_input.as_str()).is_empty() {
            self.repo_ui.rid.clone()
        } else {
            self.rid_input.clone()
        };
        self.repo_ui.reload_requested = false;
        if trim(rid.as_str()).is_empty() {
            return None;
        }
        if self.start_load(rid.as_str()) {
            Some(rid)
        } else {
            None
        }
    }

    /// The background worker went away: nothing is loading any more.
    pub fn on_disconnected(&mut self)
        ensures
            *final(self) == (BrowseState {
                receiving: false,
                opening: false,
                cobs_loading: false,
                inventory_loading: false,
                ..*old(self)
            }),
    {
        self.receiving = false;
        self.opening = false;
        self.cobs_loading = false;
        self.inventory_loading = false;
    }

    /// The guest's answer to a message the host sent for a finished load.
    pub fn guest_answer(&mut self, answer: Result<i64, String>)
        ensures
            match answer {
                Ok(n) => *final(self) == (BrowseState { model: Some(n), ..*old(self) }),
                Err(e) => *final(self) == (BrowseState { err: Some(e), ..*old(self) }),
            },
    {
        match answer {
            Ok(n) => self.model = Some(n),
            Err(e) => self.err = Some(e),
        }
    }
}

/// `ui` with the tab and status filters remembered in `p` (each falling back
/// to its default when unknown), no longer marked as changed.
pub open spec fn with_prefs(ui: RepoUi, p: RepoTabPrefs) -> RepoUi {
    RepoUi {
        tab: or_default(tab_named(p.tab@), Tab::Files),
        patch_status: or_default(patch_status_named(p.patch_status@), PatchStatus::Open),
        issue_status: or_default(issue_status_named(p.issue_status@), IssueStatus::Open),
        job_status: or_default(job_status_named(p.job_status@), JobStatus::All),
        prefs_dirty: false,
        ..ui
    }
}

/// `after` is `before` with the preferences remembered for its repo applied,
/// and the README opened when that leaves the Files tab showing (always when
/// nothing is remembered).
pub open spec fn prefs_restored(
    before: RepoUi,
    after: RepoUi,
    store: Seq<RepoTabPrefs>,
    files: Seq<FileRow>,
    readme: Option<String>,
) -> bool {
    match first_for(store, before.rid@) {
        Some(i) => {
            let applied = with_prefs(before, store[i]);
            if applied.tab == Tab::Files {
                readme_opened(applied, after, files, readme)
            } else {
                after == applied && readme is None
            }
        },
        None => readme_opened(before, after, files, readme),
    }
}

/// Restore the last tab and status filters remembered for the repo in `ui`,
/// opening its README when that shows the Files tab. Returns the README name
/// to read.
pub fn restore_tab_prefs(ui: &mut RepoUi, store: &TabPrefsStore, files: &[FileRow]) -> (readme: Option<String>)
    ensures
        prefs_restored(*old(ui), *final(ui), store.repos@, files@, readme),
{
    match get(store, ui.rid.as_str()) {
        Some(prefs) => {
            apply_to_ui(prefs, ui);
            ui.prefs_dirty = false;
            if ui.tab == Tab::Files {
                ui.open_readme_if_present(files)
            } else {
                None
            }
        },
        None => ui.open_readme_if_present(files),
    }
}

/// The recent list after recording the repo of `view` (front entry for it,
/// stamped with the time of the record).
pub open spec fn recent_after(before: Seq<RecentRepo>, after: Seq<RecentRepo>, view: RepoView) -> bool {
    &&& after.len() > 0
    &&& after == recorded_recent(before, after[0])
    &&& after[0].rid@ == view.rid@
    &&& after[0].name@ == view.name@
    &&& after[0].description@ == view.description@
}


/// `after` is the stored preferences `before` with the preferences of the
/// browser state `ui` recorded first (see [`recorded`]): its repo, tab and
/// status filters.
pub open spec fn saved_prefs(before: Seq<RepoTabPrefs>, after: Seq<RepoTabPrefs>, ui: RepoUi) -> bool {
    &&& after.len() > 0
    &&& prefs_of(after[0], ui)
    &&& after == recorded(before, after[0])
}

impl BrowseState {
    /// Refresh files, commits and the meta slots in place; the COB lists
    /// stay until their own load arrives.
    fn apply_core_reload(&mut self, view: &RepoView)
        ensures
            *final(self) == (BrowseState {
                repo_ui: RepoUi {
                    head_oid: final(self).repo_ui.head_oid,
                    reload_requested: false,
                    ..old(self).repo_ui
                },
                slots: ViewModel {
                    strings: final(self).slots.strings,
                    files: final(self).slots.files,
                    commits: final(self).slots.commits,
                    ..old(self).slots
                },
                err: None,
                ..*old(self)
            }),
            final(self).repo_ui.head_oid@ == view.head_oid@,
            string_views(final(self).slots.strings@) == view_strings(*view),
            final(self).slots.files@ == view.files@,
            final(self).slots.commits@ == view.commits@,
    {
        self.repo_ui.head_oid = view.head_oid.clone();
        self.slots.strings = view_strings_of(view);
        self.slots.files = dup_vec(&view.files);
        self.slots.commits = dup_vec(&view.commits);
        self.repo_ui.reload_requested = false;
        self.err = None;
    }

    /// The core of a repo open arrived (identity, files, commits), or the open
    /// failed.
    ///
    /// On success the repo goes to the front of the recent list. The repo on
    /// screen is refreshed in place; another repo replaces the view (browser
    /// state reset, remembered tab restored, README opened) and the guest is
    /// told it loaded. On failure the error is shown over the repo on screen,
    /// or on the error screen, and the guest is told the open failed.
    pub fn on_core(&mut self, result: Result<RepoView, String>) -> (fx: CoreEffects)
        ensures
            !final(self).opening,
            final(self).has_profile == old(self).has_profile,
            final(self).rid_input == old(self).rid_input,
            final(self).repo_filter == old(self).repo_filter,
            final(self).local_repos == old(self).local_repos,
            final(self).tab_prefs == old(self).tab_prefs,
            final(self).inventory_loading == old(self).inventory_loading,
            final(self).auto_open == old(self).auto_open,
            final(self).model == old(self).model,
            match result {
                Ok(view) => {
                    &&& final(self).cobs_loading
                    &&& final(self).receiving == old(self).receiving
                    &&& final(self).reload_in_flight == old(self).reload_in_flight
                    &&& fx.save_recent
                    &&& recent_after(old(self).recent_repos@, final(self).recent_repos@, view)
                    &&& if old(self).model == Some(1i64) && old(self).repo_ui.rid@ == view.rid@ {
                        &&& final(self).repo_ui == (RepoUi {
                            head_oid: final(self).repo_ui.head_oid,
                            reload_requested: false,
                            ..old(self).repo_ui
                        })
                        &&& final(self).repo_ui.head_oid@ == view.head_oid@
                        &&& final(self).slots == (ViewModel {
                            strings: final(self).slots.strings,
                            files: final(self).slots.files,
                            commits: final(self).slots.commits,
                            ..old(self).slots
                        })
                        &&& string_views(final(self).slots.strings@) == view_strings(view)
                        &&& final(self).slots.files@ == view.files@
                        &&& final(self).slots.commits@ == view.commits@
                        &&& final(self).err is None
                        &&& fx.read_readme is None && fx.guest_msg is None
                    } else if old(self).has_profile {
                        &&& exists|fresh: RepoUi|
                            fresh.is_fresh() && fresh.rid@ == view.rid@ && fresh.head_oid@
                                == view.head_oid@ && fresh.dir_entries@ == view.files@
                                && #[trigger] prefs_restored(
                                fresh,
                                final(self).repo_ui,
                                old(self).tab_prefs.repos@,
                                view.files@,
                                fx.read_readme,
                            )
                        &&& string_views(final(self).slots.strings@) == view_strings(view)
                        &&& final(self).slots.files@ == view.files@
                        &&& final(self).slots.commits@ == view.commits@
                        &&& final(self).slots.patches@ == view.patches@
                        &&& final(self).slots.issues@ == view.issues@
                        &&& final(self).slots.jobs@.len() == view.jobs@.len()
                        &&& forall|k: int|
                            0 <= k < view.jobs@.len() ==> (#[trigger] final(self).slots.jobs@[k]).same_as(
                                view.jobs@[k],
                            )
                        &&& final(self).slots.local_repos@.len() == 0
                        &&& final(self).slots.rid_query@.len() == 0
                        &&& final(self).err is None
                        &&& fx.guest_msg == if old(self).model is Some {
                            Some(MSG_LOADED)
                        } else {
                            None::<i64>
                        }
                    } else {
                        &&& final(self).repo_ui == old(self).repo_ui
                        &&& final(self).slots == old(self).slots
                        &&& opt_text(final(self).err) == Some(no_profile_text())
                        &&& fx.read_readme is None && fx.guest_msg is None
                    }
                },
                Err(msg) => {
                    &&& !final(self).cobs_loading
                    &&& !final(self).receiving
                    &&& !final(self).reload_in_flight
                    &&& final(self).recent_repos == old(self).recent_repos
                    &&& final(self).repo_ui == old(self).repo_ui
                    &&& opt_text(final(self).err) == Some(msg@)
                    &&& !fx.save_recent && fx.read_readme is None
                    &&& if old(self).model == Some(1i64) && old(self).repo_ui.rid@.len() > 0 {
                        final(self).slots == old(self).slots && fx.guest_msg is None
                    } else {
                        &&& string_views(final(self).slots.strings@) == seq![
                            Seq::<char>::empty(),
                            Seq::<char>::empty(),
                            Seq::<char>::empty(),
                            Seq::<char>::empty(),
                            Seq::<char>::empty(),
                            msg@,
                        ]
                        &&& final(self).slots.files@.len() == 0
                        &&& final(self).slots.commits@.len() == 0
                        &&& final(self).slots.patches@.len() == 0
                        &&& final(self).slots.issues@.len() == 0
                        &&& final(self).slots.jobs@.len() == 0
                        &&& fx.guest_msg == if old(self).model is Some {
                            Some(MSG_FAILED)
                        } else {
                            None::<i64>
                        }
                    }
                },
            },
    {
        self.opening = false;
        match result {
            Ok(view) => {
                self.cobs_loading = true;
                crate::recent::record(
                    &mut self.recent_repos,
                    view.rid.as_str(),
                    view.name.as_str(),
                    view.description.as_str(),
                );
                let already_viewing = self.model == Some(1i64) && crate::text::str_eq(
                    self.repo_ui.rid.as_str(),
                    view.rid.as_str(),
                );
                if already_viewing {
                    self.apply_core_reload(&view);
                    CoreEffects { save_recent: true, read_readme: None, guest_msg: None }
                } else if self.has_profile {
                    let mut ui = RepoUi::default();
                    ui.reset_for(view.rid.as_str(), view.head_oid.as_str(), view.files.as_slice());
                    let ghost fresh = ui;
                    let readme = restore_tab_prefs(&mut ui, &self.tab_prefs, view.files.as_slice());
                    self.repo_ui = ui;
                    self.slots = ViewModel::from_view(&view);
                    self.err = None;
                    let guest_msg = if self.model.is_some() {
                        Some(MSG_LOADED)
                    } else {
                        None
                    };
                    assert(prefs_restored(fresh, self.repo_ui, self.tab_prefs.repos@, view.files@, readme));
                    CoreEffects { save_recent: true, read_readme: readme, guest_msg }
                } else {
                    self.err = Some(owned("No Radicle profile loaded."));
                    CoreEffects { save_recent: true, read_readme: None, guest_msg: None }
                }
            },
            Err(msg) => {
                self.cobs_loading = false;
                self.reload_in_flight = false;
                self.receiving = false;
                let already_viewing = self.model == Some(1i64) && !self.repo_ui.rid.as_str().is_empty();
                if already_viewing {
                    self.err = Some(msg);
                    CoreEffects { save_recent: false, read_readme: None, guest_msg: None }
                } else {
                    self.slots = ViewModel::from_error(msg.as_str());
                    self.err = Some(msg);
                    let guest_msg = if self.model.is_some() {
                        Some(MSG_FAILED)
                    } else {
                        None
                    };
                    CoreEffects { save_recent: false, read_readme: None, guest_msg }
                }
            },
        }
    }

    /// The COB lists of an open arrived (or failed to load). Lists for a
    /// repo no longer on screen are dropped. Returns whether to toast
    /// "Reloaded" (the lists finished a reload of the repo on screen).
    pub fn on_cobs(
        &mut self,
        rid: &str,
        result: Result<(Vec<PatchRow>, Vec<IssueRow>, Vec<JobRow>), String>,
    ) -> (reloaded: bool)
        ensures
            !final(self).cobs_loading,
            !final(self).receiving,
            !final(self).reload_in_flight,
            final(self).has_profile == old(self).has_profile,
            final(self).model == old(self).model,
            final(self).rid_input == old(self).rid_input,
            final(self).repo_filter == old(self).repo_filter,
            final(self).local_repos == old(self).local_repos,
            final(self).recent_repos == old(self).recent_repos,
            final(self).tab_prefs == old(self).tab_prefs,
            final(self).opening == old(self).opening,
            final(self).inventory_loading == old(self).inventory_loading,
            final(self).auto_open == old(self).auto_open,
            match result {
                Ok((patches, issues, jobs)) => if old(self).repo_ui.rid@ == rid@ {
                    &&& final(self).slots == (ViewModel {
                        patches,
                        issues,
                        jobs,
                        ..old(self).slots
                    })
                    &&& pruned(old(self).repo_ui, final(self).repo_ui, patches@, issues@, jobs@)
                    &&& final(self).err is None
                    &&& reloaded == old(self).reload_in_flight
                } else {
                    &&& final(self).slots == old(self).slots
                    &&& final(self).repo_ui == old(self).repo_ui
                    &&& final(self).err == old(self).err
                    &&& !reloaded
                },
                Err(msg) => {
                    &&& final(self).slots == old(self).slots
                    &&& final(self).repo_ui == old(self).repo_ui
                    &&& opt_text(final(self).err) == Some(msg@)
                    &&& !reloaded
                },
            },
    {
        self.cobs_loading = false;
        self.receiving = false;
        match result {
            Ok((patches, issues, jobs)) => {
                if !crate::text::str_eq(self.repo_ui.rid.as_str(), rid) {
                    self.reload_in_flight = false;
                    return false;
                }
                let toast = self.reload_in_flight;
                self.reload_in_flight = false;
                self.slots.patches = patches;
                self.slots.issues = issues;
                self.slots.jobs = jobs;
                self.repo_ui.prune_cob_selections(
                    self.slots.patches.as_slice(),
                    self.slots.issues.as_slice(),
                    self.slots.jobs.as_slice(),
                );
                self.err = None;
                toast
            },
            Err(msg) => {
                self.reload_in_flight = false;
                self.err = Some(msg);
                false
            },
        }
    }

    /// The local inventory arrived (or failed to load).
    pub fn on_inventory(&mut self, result: Result<Vec<RepoSummary>, String>)
        ensures
            *final(self) == (BrowseState {
                inventory_loading: false,
                receiving: if !old(self).opening && !old(self).cobs_loading {
                    false
                } else {
                    old(self).receiving
                },
                local_repos: match result {
                    Ok(repos) => repos,
                    Err(_) => old(self).local_repos,
                },
                err: match result {
                    Ok(_) => old(self).err,
                    Err(e) => Some(e),
                },
                ..*old(self)
            }),
    {
        self.inventory_loading = false;
        if !self.opening && !self.cobs_loading {
            self.receiving = false;
        }
        match result {
            Ok(repos) => self.local_repos = repos,
            Err(e) => self.err = Some(e),
        }
    }

    /// Remember the tab and filters of the repo on screen when they changed;
    /// `true` when the host should persist the store.
    pub fn persist_tab_prefs_if_dirty(&mut self) -> (save: bool)
        ensures
            save == (old(self).repo_ui.prefs_dirty && old(self).repo_ui.rid@.len() > 0),
            save ==> *final(self) == (BrowseState {
                tab_prefs: final(self).tab_prefs,
                repo_ui: RepoUi { prefs_dirty: false, ..old(self).repo_ui },
                ..*old(self)
            }),
            save ==> saved_prefs(old(self).tab_prefs.repos@, final(self).tab_prefs.repos@, old(self).repo_ui),
            !save ==> *final(self) == *old(self),
    {
        if !self.repo_ui.prefs_dirty || self.repo_ui.rid.as_str().is_empty() {
            return false;
        }
        let prefs = from_ui(&self.repo_ui);
        let ghost p = prefs;
        record(&mut self.tab_prefs, prefs);
        proof {
            crate::tab_prefs::lemma_record(old(self).tab_prefs.repos@, p);
        }
        self.repo_ui.prefs_dirty = false;
        true
    }

    /// A message from the guest view: `MSG_OPEN` opens the RID field; any
    /// other message goes to the guest.
    pub fn handle_msg(&mut self, msg: i64) -> (step: MsgStep)
        ensures
            msg == MSG_OPEN ==> (step matches MsgStep::Open(o) && opened(*old(self), *final(self), o)),
            msg != MSG_OPEN ==> *final(self) == *old(self) && match old(self).model {
                Some(_) => step == MsgStep::Update(msg),
                None => step is Nothing,
            },
    {
        if msg == MSG_OPEN {
            return MsgStep::Open(self.open_current());
        }
        match self.model {
            Some(_) => MsgStep::Update(msg),
            None => MsgStep::Nothing,
        }
    }

    /// Open `rid` when asked from the page (a clicked repo, or a RID the
    /// view hands back): nothing while a load runs; otherwise the RID field
    /// takes `rid` and it is opened as [`BrowseState::open_current`] does.
    pub fn open_rid(&mut self, rid: String) -> (r: Option<OpenStep>)
        ensures
            !(!old(self).opening && !old(self).cobs_loading) ==> r is None && *final(self) == *old(self),
            !old(self).opening && !old(self).cobs_loading ==> (r matches Some(step) && opened(
                BrowseState { rid_input: rid, ..*old(self) },
                *final(self),
                step,
            )),
    {
        if !self.can_open() {
            return None;
        }
        self.rid_input = rid;
        Some(self.open_current())
    }

    /// A button message from the painted view: dropped while a repo opens,
    /// else handled as [`BrowseState::handle_msg`] does.
    pub fn page_message(&mut self, msg: i64) -> (step: MsgStep)
        ensures
            old(self).opening ==> step is Nothing && *final(self) == *old(self),
            !old(self).opening && msg == MSG_OPEN ==> (step matches MsgStep::Open(o) && opened(
                *old(self),
                *final(self),
                o,
            )),
            !old(self).opening && msg != MSG_OPEN ==> *final(self) == *old(self) && match old(
                self,
            ).model {
                Some(_) => step == MsgStep::Update(msg),
                None => step is Nothing,
            },
    {
        if self.opening {
            return MsgStep::Nothing;
        }
        self.handle_msg(msg)
    }

    /// The guest's answer to message `msg`. Going back to the enter screen
    /// (the message was `MSG_BACK` or the new model is the enter screen)
    /// remembers the repo's tab, asks for the inventory again and clears the
    /// RID field and the filter.
    pub fn message_answer(&mut self, msg: i64, answer: Result<i64, String>) -> (fx: MessageEffects)
        ensures
            match answer {
                Ok(n) => {
                    &&& final(self).model == Some(n)
                    &&& final(self).err is None
                    &&& if msg == MSG_BACK || n == 0 {
                        &&& final(self).rid_input@.len() == 0
                        &&& final(self).repo_filter@.len() == 0
                        &&& fx.save_prefs == (old(self).repo_ui.rid@.len() > 0)
                        &&& *final(self) == (BrowseState {
                            model: Some(n),
                            err: None,
                            rid_input: final(self).rid_input,
                            repo_filter: final(self).repo_filter,
                            tab_prefs: final(self).tab_prefs,
                            repo_ui: final(self).repo_ui,
                            inventory_loading: old(self).has_profile,
                            receiving: if fx.load_inventory {
                                true
                            } else {
                                old(self).receiving
                            },
                            ..*old(self)
                        })
                        &&& (fx.save_prefs ==> saved_prefs(
                            old(self).tab_prefs.repos@,
                            final(self).tab_prefs.repos@,
                            old(self).repo_ui,
                        ) && final(self).repo_ui == (RepoUi {
                            prefs_dirty: false,
                            ..old(self).repo_ui
                        }))
                        &&& (!fx.save_prefs ==> final(self).tab_prefs == old(self).tab_prefs
                            && final(self).repo_ui == old(self).repo_ui)
                        &&& fx.load_inventory == (old(self).has_profile && !old(self).opening
                            && !old(self).cobs_loading && !old(self).receiving)
                    } else {
                        *final(self) == (BrowseState { model: Some(n), err: None, ..*old(self) })
                            && !fx.save_prefs && !fx.load_inventory
                    }
                },
                Err(e) => *final(self) == (BrowseState { err: Some(e), ..*old(self) })
                    && !fx.save_prefs && !fx.load_inventory,
            },
    {
        match answer {
            Ok(n) => {
                let mut fx = MessageEffects { save_prefs: false, load_inventory: false };
                if msg == MSG_BACK || n == 0 {
                    if !self.repo_ui.rid.as_str().is_empty() {
                        let prefs = from_ui(&self.repo_ui);
                        let ghost p = prefs;
                        record(&mut self.tab_prefs, prefs);
                        proof {
                            crate::tab_prefs::lemma_record(old(self).tab_prefs.repos@, p);
                        }
                        self.repo_ui.prefs_dirty = false;
                        fx.save_prefs = true;
                    }
                    fx.load_inventory = self.refresh_local_repos();
                    self.rid_input = String::new();
                    self.repo_filter = String::new();
                }
                self.model = Some(n);
                self.err = None;
                fx
            },
            Err(e) => {
                self.err = Some(e);
                MessageEffects { save_prefs: false, load_inventory: false }
            },
        }
    }

    /// Text read from the clipboard for the RID field (`None` when it could
    /// not be read). Returns the toast to show.
    pub fn take_paste(&mut self, raw: Option<String>) -> (toast: &'static str)
        ensures
            match raw {
                None => *final(self) == *old(self) && toast@
                    == "Clipboard unavailable \u{2014} copy a rad:z\u{2026} ID, then Paste"@,
                Some(text) => if trim_ws(strip_boms(text@)).len() == 0 {
                    *final(self) == *old(self) && toast@ == "Clipboard empty"@
                } else {
                    *final(self) == (BrowseState { rid_input: final(self).rid_input, ..*old(self) })
                        && final(self).rid_input@ == trim_ws(strip_boms(text@)) && toast@
                        == "RID pasted"@
                },
            },
    {
        match raw {
            None => "Clipboard unavailable \u{2014} copy a rad:z\u{2026} ID, then Paste",
            Some(text) => {
                let pasted = normalize_paste(text.as_str());
                if pasted.as_str().is_empty() {
                    "Clipboard empty"
                } else {
                    self.rid_input = pasted;
                    "RID pasted"
                }
            },
        }
    }

    /// Work to start at the top of a frame: the inventory wanted while no
    /// load held the channel (`true`: spawn it), then the RID given at startup
    /// (`Some(step)`: open it).
    pub fn frame_start(&mut self) -> (r: (bool, Option<OpenStep>))
        ensures
            !final(self).auto_open,
            old(self).auto_open && trim_ws(old(self).rid_input@).len() > 0 <==> r.1 is Some,
            r.0 == inventory_step(*old(self)).0,
            ({
                let mid = BrowseState { auto_open: false, ..inventory_step(*old(self)).1 };
                if old(self).auto_open && trim_ws(old(self).rid_input@).len() > 0 {
                    r.1 matches Some(step) && opened(mid, *final(self), step)
                } else {
                    r.1 is None && *final(self) == mid
                }
            }),
    {
        let mut spawn_inventory = false;
        if self.inventory_loading && !self.receiving && !self.opening && !self.cobs_loading {
            spawn_inventory = self.start_inventory_load();
        }
        let mut step: Option<OpenStep> = None;
        if self.auto_open {
            self.auto_open = false;
            if !trim(self.rid_input.as_str()).is_empty() {
                step = Some(self.open_current());
            }
        }
        (spawn_inventory, step)
    }
}

} // verus!
