//! Desktop view API: opcodes packed as `payload * 16 + tag`, decoded into
//! [`Op`]s whose text is a vocabulary code. Division and remainder truncate
//! toward zero, as Rust's `/` and `%` do on `i64`.

use vstd::prelude::*;
use vstd::string::*;

use crate::layout::OpKind;
pub use crate::view_api::{count_of, tdiv, trem, CommitRow, FileRow};

verus! {

/// Dynamic strings and rows the guest references by opcode payload.
#[derive(Debug, Clone)]
pub struct ViewModel {
    pub strings: Vec<String>,
    pub files: Vec<FileRow>,
    pub commits: Vec<CommitRow>,
    pub patches: Vec<PatchRow>,
    pub issues: Vec<IssueRow>,
}

impl Default for ViewModel {
    fn default() -> (r: Self)
        ensures
            r.strings@.len() == 0,
            r.files@.len() == 0,
            r.commits@.len() == 0,
            r.patches@.len() == 0,
            r.issues@.len() == 0,
    {
        ViewModel {
            strings: Vec::new(),
            files: Vec::new(),
            commits: Vec::new(),
            patches: Vec::new(),
            issues: Vec::new(),
        }
    }
}

/// One patch COB.
#[derive(Debug, Clone)]
pub struct PatchRow {
    pub id: String,
    pub short_id: String,
    pub title: String,
    pub state: String,
    pub author: String,
    pub description: String,
    pub head: String,
    pub base: String,
    pub revisions: usize,
}

/// One issue COB.
#[derive(Debug, Clone)]
pub struct IssueRow {
    pub id: String,
    pub short_id: String,
    pub title: String,
    pub state: String,
    pub author: String,
    pub description: String,
    pub replies: usize,
}

/// Decoded view op (guest → host); text is a vocabulary code.
#[derive(Debug, Clone, Copy, PartialEq, Eq, Structural)]
pub enum Op {
    /// Repo name / desc / rid / head.
    Meta,
    Title(i64),
    Body(i64),
    Button { primary: bool, msg: i64, label: i64 },
    Space(i64),
    Status(i64),
    Header(i64),
    CardOpen,
    CardClose,
    Slot { style: i64, id: usize },
    TreeList(usize),
    MdBody(usize),
    FileList(usize),
    CommitList(usize),
    /// Files / Commits / Patches / Issues tabs browser.
    RepoTabs,
    Unknown(i64),
}

/// The op a packed opcode decodes to.
pub open spec fn decoded(packed: i64) -> Op {
    let tag = trem(packed as int, 16);
    let payload = tdiv(packed as int, 16);
    if tag == 0 {
        Op::Meta
    } else if tag == 1 {
        Op::Title(payload as i64)
    } else if tag == 2 {
        Op::Body(payload as i64)
    } else if tag == 4 {
        Op::Button {
            primary: trem(tdiv(payload, 65536), 2) == 1,
            msg: trem(tdiv(payload, 256), 256) as i64,
            label: trem(payload, 256) as i64,
        }
    } else if tag == 5 {
        Op::Space(payload as i64)
    } else if tag == 6 {
        Op::Status(payload as i64)
    } else if tag == 7 {
        Op::Header(payload as i64)
    } else if tag == 8 {
        Op::CardOpen
    } else if tag == 9 {
        Op::CardClose
    } else if tag == 10 {
        Op::Slot { style: trem(tdiv(payload, 256), 256) as i64, id: trem(payload, 256) as usize }
    } else if tag == 11 {
        Op::TreeList(count_of(payload))
    } else if tag == 12 {
        Op::MdBody(count_of(payload))
    } else if tag == 13 {
        Op::FileList(count_of(payload))
    } else if tag == 14 {
        Op::CommitList(count_of(payload))
    } else if tag == 15 {
        Op::RepoTabs
    } else {
        Op::Unknown(packed)
    }
}

impl Op {
    /// Decode a packed opcode.
    pub fn decode(packed: i64) -> (r: Self)
        ensures
            r == decoded(packed),
    {
        let tag = packed % 16;
        let payload = packed / 16;
        match tag {
            0 => Self::Meta,
            1 => Self::Title(payload),
            2 => Self::Body(payload),
            4 => {
                let label = payload % 256;
                let msg = (payload / 256) % 256;
                let primary = (payload / 65_536) % 2 == 1;
                Self::Button { primary, msg, label }
            },
            5 => Self::Space(payload),
            6 => Self::Status(payload),
            7 => Self::Header(payload),
            8 => Self::CardOpen,
            9 => Self::CardClose,
            10 => Self::Slot { style: (payload / 256) % 256, id: (payload % 256) as usize },
            11 => Self::TreeList(if payload < 0 { 0 } else { payload as usize }),
            12 => Self::MdBody(if payload < 0 { 0 } else { payload as usize }),
            13 => Self::FileList(if payload < 0 { 0 } else { payload as usize }),
            14 => Self::CommitList(if payload < 0 { 0 } else { payload as usize }),
            15 => Self::RepoTabs,
            _ => Self::Unknown(packed),
        }
    }

    /// How the op takes part in the layout.
    pub open spec fn kind_of(self) -> OpKind {
        match self {
            Op::Button { .. } => OpKind::Button,
            Op::CardOpen => OpKind::CardOpen,
            Op::CardClose => OpKind::CardClose,
            Op::Unknown(_) => OpKind::Skip,
            _ => OpKind::Widget,
        }
    }

    /// See [`Op::kind_of`].
    pub fn kind(&self) -> (r: OpKind)
        ensures
            r == self.kind_of(),
    {
        match self {
            Op::Button { .. } => OpKind::Button,
            Op::CardOpen => OpKind::CardOpen,
            Op::CardClose => OpKind::CardClose,
            Op::Unknown(_) => OpKind::Skip,
            _ => OpKind::Widget,
        }
    }
}

/// Vocabulary texts of the desktop guest.
pub open spec fn vocab_text(code: i64) -> Seq<char> {
    if code == 1 {
        "Browse"@
    } else if code == 2 {
        "Paste a Radicle ID (rad:z\u{2026}) for a repo already in local storage, then Open."@
    } else if code == 3 {
        "Open"@
    } else if code == 4 {
        "Back"@
    } else if code == 5 {
        "Could not open"@
    } else if code == 6 {
        "README"@
    } else if code == 7 {
        "Files"@
    } else if code == 8 {
        "Commits"@
    } else if code == 9 {
        "Patches"@
    } else if code == 10 {
        "Issues"@
    } else {
        "?"@
    }
}

/// Text for a vocabulary code; `?` for unknown codes.
pub fn vocab(code: i64) -> (r: &'static str)
    ensures
        r@ == vocab_text(code),
{
    match code {
        1 => "Browse",
        2 => "Paste a Radicle ID (rad:z\u{2026}) for a repo already in local storage, then Open.",
        3 => "Open",
        4 => "Back",
        5 => "Could not open",
        6 => "README",
        7 => "Files",
        8 => "Commits",
        9 => "Patches",
        10 => "Issues",
        _ => "?",
    }
}

impl ViewModel {
    /// The dynamic string in slot `id`; empty when there is no such slot.
    pub fn string(&self, id: usize) -> (r: &str)
        ensures
            r@ == if id < self.strings@.len() {
                self.strings@[id as int]@
            } else {
                Seq::empty()
            },
    {
        if id < self.strings.len() {
            self.strings[id].as_str()
        } else {
            proof {
                reveal_strlit("");
            }
            ""
        }
    }
}

} // verus!
