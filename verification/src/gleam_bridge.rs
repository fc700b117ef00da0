//! Building the host view model that the Gleam screens paint from.

use vstd::prelude::*;
use vstd::string::*;

use crate::rad::{RepoSummary, RepoView};
use crate::text::{concat, dup_slice, dup_vec, owned};
use crate::view_api::{dup_jobs, ViewModel};

verus! {

/// Guest message: open the RID in the field.
pub const MSG_OPEN: i64 = 0;

/// Guest message: back to the enter screen.
pub const MSG_BACK: i64 = 1;

/// Guest message: a repo finished loading.
pub const MSG_LOADED: i64 = 2;

/// Guest message: opening failed.
pub const MSG_FAILED: i64 = 3;

/// Guest message: no Radicle profile.
pub const MSG_NOPROFILE: i64 = 4;

/// The host slots are the view model.
pub type Slots = ViewModel;

/// What a Gleam paint produced: a button message, a RID to open, or an error.
pub struct PaintResult {
    pub pending_msg: Option<i64>,
    pub open_rid: Option<String>,
    pub error: Option<String>,
}

/// Shown in place of an empty repository description.
pub open spec fn no_description() -> Seq<char> {
    "(no description)"@
}

/// The six dynamic strings of a loaded repo: name, description (or a
/// placeholder), RID, `head <short oid>`, README, and an empty error slot.
pub open spec fn view_strings(v: RepoView) -> Seq<Seq<char>> {
    seq![
        v.name@,
        if v.description@.len() == 0 {
            no_description()
        } else {
            v.description@
        },
        v.rid@,
        "head "@ + v.head@,
        v.readme@,
        Seq::<char>::empty(),
    ]
}

/// The views of a vector of strings.
pub open spec fn string_views(v: Seq<String>) -> Seq<Seq<char>> {
    v.map_values(|s: String| s@)
}

/// The slots of a loaded repo (name, description, RID, head, README, error slot)
/// and its files, commits, patches, issues and jobs.
pub fn view_strings_of(v: &RepoView) -> (r: Vec<String>)
    ensures
        string_views(r@) == view_strings(*v),
{
    let mut strings: Vec<String> = Vec::new();
    strings.push(v.name.clone());
    if v.description.as_str().is_empty() {
        strings.push(owned("(no description)"));
    } else {
        strings.push(v.description.clone());
    }
    strings.push(v.rid.clone());
    strings.push(concat("head ", v.head.as_str()));
    strings.push(v.readme.clone());
    strings.push(String::new());
    assert(string_views(strings@) =~= view_strings(*v));
    strings
}

impl ViewModel {
    /// The model for a loaded repository.
    pub fn from_view(v: &RepoView) -> (r: Self)
        ensures
            string_views(r.strings@) == view_strings(*v),
            r.files@ == v.files@,
            r.commits@ == v.commits@,
            r.patches@ == v.patches@,
            r.issues@ == v.issues@,
            r.jobs@.len() == v.jobs@.len(),
            forall|k: int| 0 <= k < v.jobs@.len() ==> (#[trigger] r.jobs@[k]).same_as(v.jobs@[k]),
            r.local_repos@.len() == 0,
            r.rid_query@.len() == 0,
    {
        ViewModel {
            strings: view_strings_of(v),
            files: dup_vec(&v.files),
            commits: dup_vec(&v.commits),
            patches: dup_vec(&v.patches),
            issues: dup_vec(&v.issues),
            jobs: dup_jobs(&v.jobs),
            local_repos: Vec::new(),
            rid_query: String::new(),
        }
    }

    /// The model for a failed open: five empty slots, then the error message.
    pub fn from_error(err: &str) -> (r: Self)
        ensures
            string_views(r.strings@) == seq![
                Seq::<char>::empty(),
                Seq::<char>::empty(),
                Seq::<char>::empty(),
                Seq::<char>::empty(),
                Seq::<char>::empty(),
                err@,
            ],
            r.files@.len() == 0,
            r.commits@.len() == 0,
            r.patches@.len() == 0,
            r.issues@.len() == 0,
            r.jobs@.len() == 0,
            r.local_repos@.len() == 0,
            r.rid_query@.len() == 0,
    {
        let mut strings: Vec<String> = Vec::new();
        strings.push(String::new());
        strings.push(String::new());
        strings.push(String::new());
        strings.push(String::new());
        strings.push(String::new());
        strings.push(owned(err));
        let r = ViewModel {
            strings,
            files: Vec::new(),
            commits: Vec::new(),
            patches: Vec::new(),
            issues: Vec::new(),
            jobs: Vec::new(),
            local_repos: Vec::new(),
            rid_query: String::new(),
        };
        assert(string_views(r.strings@) =~= seq![
            Seq::<char>::empty(),
            Seq::<char>::empty(),
            Seq::<char>::empty(),
            Seq::<char>::empty(),
            Seq::<char>::empty(),
            err@,
        ]);
        r
    }

    /// The model for the enter screen: the local inventory and the filter text.
    pub fn for_enter(repos: &[RepoSummary], rid_query: &str) -> (r: Self)
        ensures
            r.strings@.len() == 0,
            r.files@.len() == 0,
            r.commits@.len() == 0,
            r.patches@.len() == 0,
            r.issues@.len() == 0,
            r.jobs@.len() == 0,
            r.local_repos@ == repos@,
            r.rid_query@ == rid_query@,
    {
        ViewModel {
            strings: Vec::new(),
            files: Vec::new(),
            commits: Vec::new(),
            patches: Vec::new(),
            issues: Vec::new(),
            jobs: Vec::new(),
            local_repos: dup_slice(repos),
            rid_query: owned(rid_query),
        }
    }
}

} // verus!
