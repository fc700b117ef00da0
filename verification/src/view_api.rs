//! Host view API: the Gleam guest emits packed opcodes; the host decodes them
//! into [`Op`]s and paints them.
//!
//! Opcode packing: `payload * 16 + tag` (same as the Gleam guest). Division and
//! remainder truncate toward zero, as Rust's `/` and `%` do on `i64`.

use vstd::prelude::*;
use vstd::string::*;

use crate::layout::OpKind;
use crate::rad::RepoSummary;
use crate::text::{dup_vec, Duplicate};

verus! {

/// Rust's `/` on integers: the quotient truncated toward zero (`b > 0`).
pub open spec fn tdiv(a: int, b: int) -> int {
    if a >= 0 {
        a / b
    } else {
        -((-a) / b)
    }
}

/// Rust's `%` on integers: the remainder that takes the sign of `a` (`b > 0`).
pub open spec fn trem(a: int, b: int) -> int {
    a - b * tdiv(a, b)
}

/// Dynamic strings + typed rows the guest references by opcode payload.
#[derive(Debug, Clone)]
pub struct ViewModel {
    pub strings: Vec<String>,
    pub files: Vec<FileRow>,
    pub commits: Vec<CommitRow>,
    pub patches: Vec<PatchRow>,
    pub issues: Vec<IssueRow>,
    pub jobs: Vec<JobRow>,
    /// Enter-screen inventory (host-filled).
    pub local_repos: Vec<RepoSummary>,
    /// RID/filter text used when painting a repo list.
    pub rid_query: String,
}

impl ViewModel {
    /// Every list and string of the model is empty.
    pub open spec fn is_empty_model(self) -> bool {
        &&& self.strings@.len() == 0
        &&& self.files@.len() == 0
        &&& self.commits@.len() == 0
        &&& self.patches@.len() == 0
        &&& self.issues@.len() == 0
        &&& self.jobs@.len() == 0
        &&& self.local_repos@.len() == 0
        &&& self.rid_query@.len() == 0
    }
}

impl Default for ViewModel {
    fn default() -> (r: Self)
        ensures
            r.is_empty_model(),
    {
        ViewModel {
            strings: Vec::new(),
            files: Vec::new(),
            commits: Vec::new(),
            patches: Vec::new(),
            issues: Vec::new(),
            jobs: Vec::new(),
            local_repos: Vec::new(),
            rid_query: String::new(),
        }
    }
}

/// One entry of a directory listing.
#[derive(Debug, Clone)]
pub struct FileRow {
    pub name: String,
    pub is_tree: bool,
}

impl Duplicate for FileRow {
    fn duplicate(&self) -> (r: Self) {
        FileRow { name: self.name.clone(), is_tree: self.is_tree }
    }
}

/// One commit of the history list.
#[derive(Debug, Clone)]
pub struct CommitRow {
    pub id: String,
    pub summary: String,
    pub short_id: String,
    pub author: String,
}

impl Duplicate for CommitRow {
    fn duplicate(&self) -> (r: Self) {
        CommitRow {
            id: self.id.clone(),
            summary: self.summary.clone(),
            short_id: self.short_id.clone(),
            author: self.author.clone(),
        }
    }
}

/// One patch COB.
#[derive(Debug, Clone)]
pub struct PatchRow {
    pub id: String,
    pub short_id: String,
    pub title: String,
    pub state: String,
    pub author: String,
    pub description: String,
    pub head: String,
    pub base: String,
    pub revisions: usize,
    /// Milliseconds since epoch (for sort / display).
    pub updated_ms: u64,
}

impl Duplicate for PatchRow {
    fn duplicate(&self) -> (r: Self) {
        PatchRow {
            id: self.id.clone(),
            short_id: self.short_id.clone(),
            title: self.title.clone(),
            state: self.state.clone(),
            author: self.author.clone(),
            description: self.description.clone(),
            head: self.head.clone(),
            base: self.base.clone(),
            revisions: self.revisions,
            updated_ms: self.updated_ms,
        }
    }
}

/// One issue COB.
#[derive(Debug, Clone)]
pub struct IssueRow {
    pub id: String,
    pub short_id: String,
    pub title: String,
    pub state: String,
    pub author: String,
    pub description: String,
    pub replies: usize,
    /// Milliseconds since epoch (for sort / display).
    pub updated_ms: u64,
}

impl Duplicate for IssueRow {
    fn duplicate(&self) -> (r: Self) {
        IssueRow {
            id: self.id.clone(),
            short_id: self.short_id.clone(),
            title: self.title.clone(),
            state: self.state.clone(),
            author: self.author.clone(),
            description: self.description.clone(),
            replies: self.replies,
            updated_ms: self.updated_ms,
        }
    }
}

/// One run of a job on one node.
#[derive(Debug, Clone)]
pub struct JobRunRow {
    pub node: String,
    pub run_id: String,
    pub status: String,
    pub log: String,
    pub timestamp_secs: u64,
}

impl Duplicate for JobRunRow {
    fn duplicate(&self) -> (r: Self) {
        JobRunRow {
            node: self.node.clone(),
            run_id: self.run_id.clone(),
            status: self.status.clone(),
            log: self.log.clone(),
            timestamp_secs: self.timestamp_secs,
        }
    }
}

/// One job COB with its runs.
#[derive(Debug, Clone)]
pub struct JobRow {
    pub id: String,
    pub short_id: String,
    pub commit: String,
    pub short_commit: String,
    pub status: String,
    pub run_count: usize,
    pub node_count: usize,
    pub updated_secs: u64,
    pub runs: Vec<JobRunRow>,
}

impl JobRow {
    /// Same fields and the same runs (element for element).
    pub open spec fn same_as(self, other: JobRow) -> bool {
        &&& self.id == other.id
        &&& self.short_id == other.short_id
        &&& self.commit == other.commit
        &&& self.short_commit == other.short_commit
        &&& self.status == other.status
        &&& self.run_count == other.run_count
        &&& self.node_count == other.node_count
        &&& self.updated_secs == other.updated_secs
        &&& self.runs@ == other.runs@
    }

    /// A copy with the same fields and runs.
    pub fn duplicate(&self) -> (r: JobRow)
        ensures
            r.same_as(*self),
    {
        JobRow {
            id: self.id.clone(),
            short_id: self.short_id.clone(),
            commit: self.commit.clone(),
            short_commit: self.short_commit.clone(),
            status: self.status.clone(),
            run_count: self.run_count,
            node_count: self.node_count,
            updated_secs: self.updated_secs,
            runs: dup_vec(&self.runs),
        }
    }
}

/// Element-wise copy of a job list.
pub fn dup_jobs(v: &Vec<JobRow>) -> (r: Vec<JobRow>)
    ensures
        r@.len() == v@.len(),
        forall|k: int| 0 <= k < v@.len() ==> (#[trigger] r@[k]).same_as(v@[k]),
{
    let mut out: Vec<JobRow> = Vec::new();
    let mut i: usize = 0;
    while i < v.len()
        invariant
            i <= v@.len(),
            out@.len() == i,
            forall|k: int| 0 <= k < i ==> (#[trigger] out@[k]).same_as(v@[k]),
        decreases v@.len() - i,
    {
        out.push(v[i].duplicate());
        i += 1;
    }
    out
}

/// Side effects collected while painting a Gleam view.
#[derive(Debug)]
pub struct PaintEffects {
    pub pending_msg: Option<i64>,
    pub open_rid: Option<String>,
}

impl Default for PaintEffects {
    fn default() -> (r: Self)
        ensures
            r.pending_msg is None,
            r.open_rid is None,
    {
        PaintEffects { pending_msg: None, open_rid: None }
    }
}

impl PaintEffects {
    /// Fold effects from a nested paint into `self`: a later message or open
    /// request replaces an earlier one.
    pub fn merge(&mut self, other: Self)
        ensures
            final(self).pending_msg == if other.pending_msg is Some {
                other.pending_msg
            } else {
                old(self).pending_msg
            },
            final(self).open_rid == if other.open_rid is Some {
                other.open_rid
            } else {
                old(self).open_rid
            },
    {
        if other.pending_msg.is_some() {
            self.pending_msg = other.pending_msg;
        }
        if other.open_rid.is_some() {
            self.open_rid = other.open_rid;
        }
    }
}


/// Decoded view op (Gleam → host).
#[derive(Debug, Clone, PartialEq, Eq)]
pub enum Op {
    /// Repo name / desc / rid / head.
    Meta,
    Title(String),
    Body(String),
    /// Local storage inventory (enter screen).
    RepoList,
    Button { primary: bool, msg: i64, label: String },
    Space(i64),
    Status(String),
    Header(String),
    CardOpen,
    CardClose,
    Slot { style: i64, id: usize },
    TreeList(usize),
    MdBody(usize),
    FileList(usize),
    CommitList(usize),
    /// Files / Commits / Patches / Issues / Jobs tabs browser.
    RepoTabs,
    Unknown(i64),
}

/// The list/slot count carried by a payload: negative payloads count as 0.
pub open spec fn count_of(payload: int) -> usize {
    if payload < 0 {
        0usize
    } else {
        payload as usize
    }
}

/// `op` is what the packed opcode `packed` decodes to, with `text` in the
/// place of the op's text (title/body/status/header text, button label), and
/// `needs_text` telling whether the op carries text.
pub open spec fn decodes_to(packed: i64, op: Op, needs_text: bool, text: Seq<char>) -> bool {
    let tag = trem(packed as int, 16);
    let payload = tdiv(packed as int, 16);
    if tag == 0 {
        op is Meta && !needs_text
    } else if tag == 1 {
        op matches Op::Title(t) && t@ == text && needs_text
    } else if tag == 2 {
        op matches Op::Body(t) && t@ == text && needs_text
    } else if tag == 3 {
        op is RepoList && !needs_text
    } else if tag == 4 {
        &&& op matches Op::Button { primary, msg, label }
        &&& primary == (trem(tdiv(payload, 65536), 2) == 1)
        &&& msg == trem(tdiv(payload, 256), 256)
        &&& label@ == text
        &&& needs_text
    } else if tag == 5 {
        op == Op::Space(payload as i64) && !needs_text
    } else if tag == 6 {
        op matches Op::Status(t) && t@ == text && needs_text
    } else if tag == 7 {
        op matches Op::Header(t) && t@ == text && needs_text
    } else if tag == 8 {
        op is CardOpen && !needs_text
    } else if tag == 9 {
        op is CardClose && !needs_text
    } else if tag == 10 {
        op == Op::Slot {
            style: trem(tdiv(payload, 256), 256) as i64,
            id: trem(payload, 256) as usize,
        } && !needs_text
    } else if tag == 11 {
        op == Op::TreeList(count_of(payload)) && !needs_text
    } else if tag == 12 {
        op == Op::MdBody(count_of(payload)) && !needs_text
    } else if tag == 13 {
        op == Op::FileList(count_of(payload)) && !needs_text
    } else if tag == 14 {
        op == Op::CommitList(count_of(payload)) && !needs_text
    } else if tag == 15 {
        op is RepoTabs && !needs_text
    } else {
        op == Op::Unknown(packed) && !needs_text
    }
}

/// The legacy text of a packed op: the vocabulary entry of its payload (of the
/// low byte of the payload for buttons).
pub open spec fn legacy_text(packed: i64) -> Seq<char> {
    let payload = tdiv(packed as int, 16);
    if trem(packed as int, 16) == 4 {
        vocab_text(trem(payload, 256) as i64)
    } else {
        vocab_text(payload as i64)
    }
}

impl Op {
    /// Decode a packed opcode. Text-carrying ops come back with empty text,
    /// except a button, whose label is its vocabulary entry; the flag says
    /// whether the op carries text that the guest may supply.
    pub fn decode_packed(packed: i64) -> (r: (Self, bool))
        ensures
            decodes_to(
                packed,
                r.0,
                r.1,
                if trem(packed as int, 16) == 4 {
                    legacy_text(packed)
                } else {
                    Seq::empty()
                },
            ),
    {
        let tag = packed % 16;
        let payload = packed / 16;
        match tag {
            0 => (Self::Meta, false),
            1 => (Self::Title(String::new()), true),
            2 => (Self::Body(String::new()), true),
            3 => (Self::RepoList, false),
            4 => {
                let label_code = payload % 256;
                let msg = (payload / 256) % 256;
                let primary = (payload / 65_536) % 2 == 1;
                (Self::Button { primary, msg, label: crate::text::owned(vocab(label_code)) }, true)
            },
            5 => (Self::Space(payload), false),
            6 => (Self::Status(String::new()), true),
            7 => (Self::Header(String::new()), true),
            8 => (Self::CardOpen, false),
            9 => (Self::CardClose, false),
            10 => (Self::Slot { style: (payload / 256) % 256, id: (payload % 256) as usize }, false),
            11 => (Self::TreeList(if payload < 0 { 0 } else { payload as usize }), false),
            12 => (Self::MdBody(if payload < 0 { 0 } else { payload as usize }), false),
            13 => (Self::FileList(if payload < 0 { 0 } else { payload as usize }), false),
            14 => (Self::CommitList(if payload < 0 { 0 } else { payload as usize }), false),
            15 => (Self::RepoTabs, false),
            _ => (Self::Unknown(packed), false),
        }
    }

    /// Legacy path when the guest has no `browse__view_text`: text comes from
    /// the vocabulary codes in the payload.
    pub fn decode(packed: i64) -> (r: Self)
        ensures
            decodes_to(packed, r, r.carries_text(), legacy_text(packed)),
    {
        let (mut op, needs_text) = Self::decode_packed(packed);
        if needs_text {
            let payload = packed / 16;
            match &mut op {
                Self::Title(s) => *s = crate::text::owned(vocab(payload)),
                Self::Body(s) => *s = crate::text::owned(vocab(payload)),
                Self::Status(s) => *s = crate::text::owned(vocab(payload)),
                Self::Header(s) => *s = crate::text::owned(vocab(payload)),
                Self::Button { label, .. } => {
                    let label_code = payload % 256;
                    *label = crate::text::owned(vocab(label_code));
                },
                _ => {},
            }
        }
        op
    }

    /// Unpacking undoes packing: a non-negative payload packed above a tag
    /// comes back as that tag and that payload.
    pub proof fn lemma_unpack(payload: int, tag: int)
        requires
            0 <= payload,
            0 <= tag < 16,
        ensures
            trem(payload * 16 + tag, 16) == tag,
            tdiv(payload * 16 + tag, 16) == payload,
    {
        assert((payload * 16 + tag) / 16 == payload) by (nonlinear_arith)
            requires
                0 <= payload,
                0 <= tag < 16,
        ;
    }

    /// A button packed as the guest packs it (the primary flag, the message
    /// and the label code in their fields of the payload) decodes to a button
    /// with that flag and message, labelled by the label code's vocabulary
    /// entry.
    pub proof fn lemma_button_roundtrip(primary: bool, msg: int, label: int, packed: i64, op: Op)
        requires
            0 <= msg < 256,
            0 <= label < 256,
            packed == ((if primary { 1int } else { 0int }) * 65536 + msg * 256 + label) * 16 + 4,
            decodes_to(packed, op, op.carries_text(), legacy_text(packed)),
        ensures
            op matches Op::Button { primary: p, msg: m, label: l } && p == primary && m == msg
                && l@ == vocab_text(label as i64),
    {
        let f: int = if primary { 1 } else { 0 };
        let payload = f * 65536 + msg * 256 + label;
        Op::lemma_unpack(payload, 4);
        assert(payload / 256 == f * 256 + msg && payload % 256 == label) by (nonlinear_arith)
            requires
                payload == f * 65536 + msg * 256 + label,
                0 <= msg < 256,
                0 <= label < 256,
                0 <= f <= 1,
        ;
        assert((f * 256 + msg) % 256 == msg && (f * 256 + msg) / 256 == f) by (nonlinear_arith)
            requires
                0 <= msg < 256,
                0 <= f <= 1,
        ;
        assert(payload / 65536 == f) by (nonlinear_arith)
            requires
                payload == f * 65536 + msg * 256 + label,
                0 <= msg < 256,
                0 <= label < 256,
                0 <= f <= 1,
        ;
    }

    /// The op has a text slot (title, body, status, header, button label).
    pub open spec fn carries_text(self) -> bool {
        self is Title || self is Body || self is Status || self is Header || self is Button
    }

    /// The op's text, for ops that carry one.
    pub open spec fn text_of(self) -> Seq<char> {
        match self {
            Op::Title(s) => s@,
            Op::Body(s) => s@,
            Op::Status(s) => s@,
            Op::Header(s) => s@,
            Op::Button { label, .. } => label@,
            _ => Seq::empty(),
        }
    }

    /// `self` and `other` agree on everything but the text slot.
    pub open spec fn same_but_text(self, other: Op) -> bool {
        match (self, other) {
            (Op::Title(_), Op::Title(_)) => true,
            (Op::Body(_), Op::Body(_)) => true,
            (Op::Status(_), Op::Status(_)) => true,
            (Op::Header(_), Op::Header(_)) => true,
            (Op::Button { primary: p1, msg: m1, .. }, Op::Button { primary: p2, msg: m2, .. }) => p1
                == p2 && m1 == m2,
            _ => self == other,
        }
    }

    /// Replace the op's text with guest-supplied `text`, unless it is empty.
    pub fn apply_guest_text(&mut self, text: String)
        ensures
            final(self).same_but_text(*old(self)),
            final(self).carries_text() == old(self).carries_text(),
            final(self).text_of() == if old(self).carries_text() && text@.len() > 0 {
                text@
            } else {
                old(self).text_of()
            },
    {
        if text.as_str().is_empty() {
            return;
        }
        match self {
            Self::Title(s) => *s = text,
            Self::Body(s) => *s = text,
            Self::Status(s) => *s = text,
            Self::Header(s) => *s = text,
            Self::Button { label, .. } => *label = text,
            _ => {},
        }
    }
}

/// Legacy guest text codes (used when the guest exports no text).
pub open spec fn vocab_text(code: i64) -> Seq<char> {
    if code == 1 {
        "Browse"@
    } else if code == 2 {
        "Paste a Radicle ID (rad:z…) for a repo already in local storage, then Open."@
    } else if code == 3 {
        "Open"@
    } else if code == 4 {
        "Back"@
    } else if code == 5 {
        "Could not open"@
    } else if code == 6 {
        "README"@
    } else if code == 7 {
        "Files"@
    } else if code == 8 {
        "Commits"@
    } else {
        "?"@
    }
}

/// Text for a legacy guest vocabulary code; `?` for unknown codes.
pub fn vocab(code: i64) -> (r: &'static str)
    ensures
        r@ == vocab_text(code),
{
    match code {
        1 => "Browse",
        2 => "Paste a Radicle ID (rad:z…) for a repo already in local storage, then Open.",
        3 => "Open",
        4 => "Back",
        5 => "Could not open",
        6 => "README",
        7 => "Files",
        8 => "Commits",
        _ => "?",
    }
}

/// Host chrome labels by id.
pub open spec fn fallback_label(code: i64) -> Seq<char> {
    if code == 1 {
        "Browse"@
    } else if code == 2 {
        "Open"@
    } else if code == 3 {
        "RID"@
    } else if code == 4 {
        "Back"@
    } else if code == 5 {
        "Files"@
    } else if code == 6 {
        "Commits"@
    } else if code == 7 {
        "README"@
    } else if code == 8 {
        "Local repos"@
    } else if code == 9 {
        "No repositories in local storage yet."@
    } else if code == 10 {
        "No repos match this filter."@
    } else if code == 11 {
        "Up"@
    } else if code == 12 {
        "(binary or too large)"@
    } else if code == 13 {
        "(empty tree)"@
    } else if code == 14 {
        "(no commits)"@
    } else if code == 15 {
        "Select a file to view its contents."@
    } else if code == 16 {
        "Select a commit to inspect its diff."@
    } else if code == 17 {
        "Changed files"@
    } else if code == 18 {
        "Diff"@
    } else if code == 19 {
        "Seed a repo with radicle, then it will show up here."@
    } else if code == 20 {
        "Filter by typing in the RID field."@
    } else if code == 21 {
        "Help"@
    } else if code == 22 {
        "(no file changes)"@
    } else if code == 23 {
        "Select a changed file to view the patch."@
    } else if code == 24 {
        "Files"@
    } else if code == 25 {
        "About"@
    } else if code == 26 {
        "Patches"@
    } else if code == 27 {
        "Issues"@
    } else if code == 28 {
        "Jobs"@
    } else if code == 29 {
        "Copy RID"@
    } else if code == 30 {
        "Head"@
    } else if code == 31 {
        "Description"@
    } else if code == 32 {
        "Name"@
    } else if code == 33 {
        "Storage"@
    } else if code == 34 {
        "Local only — Browse does not fetch from the network."@
    } else if code == 35 {
        "Vidya shell · Gleam screens · Radicle storage"@
    } else if code == 36 {
        "Repository"@
    } else if code == 37 {
        "History"@
    } else if code == 38 {
        "Tree"@
    } else if code == 39 {
        "Blob"@
    } else if code == 40 {
        "Markdown"@
    } else {
        "?"@
    }
}

/// Host chrome strings: the Rust fallback for a shared UI label id.
pub fn label_fallback(id: i64) -> (r: &'static str)
    ensures
        r@ == fallback_label(id),
{
    match id {
        1 => "Browse",
        2 => "Open",
        3 => "RID",
        4 => "Back",
        5 => "Files",
        6 => "Commits",
        7 => "README",
        8 => "Local repos",
        9 => "No repositories in local storage yet.",
        10 => "No repos match this filter.",
        11 => "Up",
        12 => "(binary or too large)",
        13 => "(empty tree)",
        14 => "(no commits)",
        15 => "Select a file to view its contents.",
        16 => "Select a commit to inspect its diff.",
        17 => "Changed files",
        18 => "Diff",
        19 => "Seed a repo with radicle, then it will show up here.",
        20 => "Filter by typing in the RID field.",
        21 => "Help",
        22 => "(no file changes)",
        23 => "Select a changed file to view the patch.",
        24 => "Files",
        25 => "About",
        26 => "Patches",
        27 => "Issues",
        28 => "Jobs",
        29 => "Copy RID",
        30 => "Head",
        31 => "Description",
        32 => "Name",
        33 => "Storage",
        34 => "Local only — Browse does not fetch from the network.",
        35 => "Vidya shell · Gleam screens · Radicle storage",
        36 => "Repository",
        37 => "History",
        38 => "Tree",
        39 => "Blob",
        40 => "Markdown",
        _ => "?",
    }
}

/// A shared UI label: the guest's label when it supplied a non-empty one,
/// else the host fallback.
pub fn ui_label(id: i64, guest: Result<Option<String>, String>) -> (r: String)
    ensures
        r@ == match guest {
            Ok(Some(s)) if s@.len() > 0 => s@,
            _ => fallback_label(id),
        },
{
    match guest {
        Ok(Some(s)) => {
            if !s.as_str().is_empty() {
                s
            } else {
                crate::text::owned(label_fallback(id))
            }
        },
        _ => crate::text::owned(label_fallback(id)),
    }
}

impl ViewModel {
    /// The dynamic string in slot `id`; empty when there is no such slot.
    pub fn string(&self, id: usize) -> (r: &str)
        ensures
            r@ == if id < self.strings@.len() {
                self.strings@[id as int]@
            } else {
                Seq::empty()
            },
    {
        if id < self.strings.len() {
            self.strings[id].as_str()
        } else {
            proof {
                reveal_strlit("");
            }
            ""
        }
    }
}

/// Index of the `CardClose` matching a card opened just before `i`, scanning
/// `ops[i..end]` at nesting `depth`; `end` when the card is never closed.
pub open spec fn card_close(ops: Seq<Op>, i: int, end: int, depth: int) -> int
    decreases end - i,
{
    if i >= end {
        end
    } else if ops[i] is CardOpen {
        card_close(ops, i + 1, end, depth + 1)
    } else if ops[i] is CardClose {
        if depth - 1 == 0 {
            i
        } else {
            card_close(ops, i + 1, end, depth - 1)
        }
    } else {
        card_close(ops, i + 1, end, depth)
    }
}

/// Find the `CardClose` that closes the card whose body starts at `from`.
pub fn find_card_end(ops: &[Op], from: usize, end: usize) -> (r: usize)
    requires
        end <= ops@.len(),
        end - from < i32::MAX,
    ensures
        r == card_close(ops@, from as int, end as int, 1),
{
    let mut depth: i32 = 1;
    let mut i = from;
    while i < end
        invariant
            end <= ops@.len(),
            from <= i || end <= i,
            i <= end || from > end,
            1 <= depth <= 1 + (i - from),
            end - from < i32::MAX,
            card_close(ops@, from as int, end as int, 1) == card_close(
                ops@,
                i as int,
                end as int,
                depth as int,
            ),
        decreases end - i,
    {
        match ops[i] {
            Op::CardOpen => depth += 1,
            Op::CardClose => {
                depth -= 1;
                if depth == 0 {
                    return i;
                }
            },
            _ => {},
        }
        i += 1;
    }
    end
}

impl Op {
    /// How the op takes part in the layout: buttons share rows, the tab
    /// strip takes the waiting buttons beside its tabs, cards nest, unknown
    /// ops paint nothing, every other op is painted alone.
    pub open spec fn kind_of(self) -> OpKind {
        match self {
            Op::Button { .. } => OpKind::Button,
            Op::RepoTabs => OpKind::WithRow,
            Op::CardOpen => OpKind::CardOpen,
            Op::CardClose => OpKind::CardClose,
            Op::Unknown(_) => OpKind::Skip,
            _ => OpKind::Widget,
        }
    }

    /// See [`Op::kind_of`].
    pub fn kind(&self) -> (r: OpKind)
        ensures
            r == self.kind_of(),
    {
        match self {
            Op::Button { .. } => OpKind::Button,
            Op::RepoTabs => OpKind::WithRow,
            Op::CardOpen => OpKind::CardOpen,
            Op::CardClose => OpKind::CardClose,
            Op::Unknown(_) => OpKind::Skip,
            _ => OpKind::Widget,
        }
    }
}

/// The layout kinds of a view's ops.
pub fn op_kinds(ops: &[Op]) -> (r: Vec<OpKind>)
    ensures
        r@ == ops@.map_values(|o: Op| o.kind_of()),
{
    let mut out: Vec<OpKind> = Vec::new();
    let mut i: usize = 0;
    while i < ops.len()
        invariant
            i <= ops@.len(),
            out@ == ops@.take(i as int).map_values(|o: Op| o.kind_of()),
        decreases ops@.len() - i,
    {
        out.push(ops[i].kind());
        i += 1;
        assert(out@ =~= ops@.take(i as int).map_values(|o: Op| o.kind_of()));
    }
    assert(ops@.take(ops@.len() as int) =~= ops@);
    out
}

} // verus!
