//! Desktop bridge: host string slots for the guest's slot and tree ops, and
//! the layout kinds of raw packed opcodes.

use vstd::prelude::*;
use vstd::string::*;

use crate::desktop::rad::RepoView;
use crate::gleam_bridge::{no_description, string_views};
use crate::layout::OpKind;
use crate::text::{concat, owned};
use crate::view_api::{trem, FileRow};

verus! {

pub const MSG_OPEN: i64 = 0;
pub const MSG_BACK: i64 = 1;
pub const MSG_LOADED: i64 = 2;
pub const MSG_FAILED: i64 = 3;

/// Slots before the tree rows: name, description, RID, head, README, error.
pub const TREE_BASE: usize = 6;

/// Host strings the guest's ops refer to by slot number.
#[derive(Debug, Clone)]
pub struct Slots {
    pub strings: Vec<String>,
}

impl Default for Slots {
    fn default() -> (r: Self)
        ensures
            r.strings@.len() == 0,
    {
        Slots { strings: Vec::new() }
    }
}

/// The slots of a loaded repo: name, description (or `(no description)`),
/// RID, `head …`, README, an empty error slot, then one row per root entry.
pub open spec fn slot_texts(v: RepoView) -> Seq<Seq<char>> {
    seq![
        v.name@,
        if v.description@.len() == 0 {
            no_description()
        } else {
            v.description@
        },
        v.rid@,
        "head "@ + v.head@,
        v.readme@,
        Seq::<char>::empty(),
    ] + v.files@.map_values(|f: FileRow| f.name@)
}

impl Slots {
    /// The slots for a loaded repo (see [`slot_texts`]).
    pub fn from_view(v: &RepoView) -> (r: Self)
        ensures
            string_views(r.strings@) == slot_texts(*v),
    {
        let mut strings: Vec<String> = Vec::new();
        strings.push(v.name.clone());
        if v.description.as_str().is_empty() {
            strings.push(owned("(no description)"));
        } else {
            strings.push(v.description.clone());
        }
        strings.push(v.rid.clone());
        strings.push(concat("head ", v.head.as_str()));
        strings.push(v.readme.clone());
        strings.push(String::new());
        let ghost base = string_views(strings@);
        let mut k: usize = 0;
        while k < v.files.len()
            invariant
                k <= v.files@.len(),
                string_views(strings@) == base + v.files@.take(k as int).map_values(
                    |f: FileRow| f.name@,
                ),
            decreases v.files@.len() - k,
        {
            let ghost before = string_views(strings@);
            strings.push(v.files[k].name.clone());
            assert(string_views(strings@) =~= before.push(v.files@[k as int].name@));
            assert(v.files@.take(k + 1).map_values(|f: FileRow| f.name@) =~= v.files@.take(
                k as int,
            ).map_values(|f: FileRow| f.name@).push(v.files@[k as int].name@));
            k += 1;
        }
        assert(v.files@.take(v.files@.len() as int) =~= v.files@);
        assert(string_views(strings@) =~= slot_texts(*v));
        Slots { strings }
    }

    /// The slots after a failed open: empty slots with the error in the
    /// error slot.
    pub fn from_error(err: &str) -> (r: Self)
        ensures
            string_views(r.strings@) == seq![
                Seq::<char>::empty(),
                Seq::<char>::empty(),
                Seq::<char>::empty(),
                Seq::<char>::empty(),
                Seq::<char>::empty(),
                err@,
            ],
    {
        let mut strings: Vec<String> = Vec::new();
        strings.push(String::new());
        strings.push(String::new());
        strings.push(String::new());
        strings.push(String::new());
        strings.push(String::new());
        strings.push(owned(err));
        assert(string_views(strings@) =~= seq![
            Seq::<char>::empty(),
            Seq::<char>::empty(),
            Seq::<char>::empty(),
            Seq::<char>::empty(),
            Seq::<char>::empty(),
            err@,
        ]);
        Slots { strings }
    }

    /// The string in slot `id`; empty when there is no such slot.
    pub fn get(&self, id: usize) -> (r: &str)
        ensures
            r@ == if id < self.strings@.len() {
                self.strings@[id as int]@
            } else {
                Seq::empty()
            },
    {
        if id < self.strings.len() {
            self.strings[id].as_str()
        } else {
            proof {
                reveal_strlit("");
            }
            ""
        }
    }

    /// The tree rows a tree op asking for `n` rows shows: at most the rows
    /// there are; none for a negative count.
    pub fn tree_rows(&self, n: i64) -> (r: Vec<&str>)
        ensures
            r@.len() == if n <= 0 || self.strings@.len() <= TREE_BASE {
                0
            } else if n < self.strings@.len() - TREE_BASE {
                n as int
            } else {
                self.strings@.len() - TREE_BASE
            },
            forall|j: int| 0 <= j < r@.len() ==> (#[trigger] r@[j])@ == self.strings@[TREE_BASE + j]@,
    {
        let len = self.strings.len();
        let available: usize = if len > TREE_BASE {
            len - TREE_BASE
        } else {
            0
        };
        let wanted: usize = if n <= 0 {
            0
        } else if (n as u64) < (available as u64) {
            n as usize
        } else {
            available
        };
        let mut out: Vec<&str> = Vec::new();
        let mut j: usize = 0;
        while j < wanted
            invariant
                wanted <= available,
                available == if self.strings@.len() > TREE_BASE {
                    self.strings@.len() - TREE_BASE
                } else {
                    0
                },
                j <= wanted,
                len == self.strings@.len(),
                wanted == 0 || TREE_BASE + wanted <= len,
                out@.len() == j,
                forall|i: int| 0 <= i < j ==> (#[trigger] out@[i])@ == self.strings@[TREE_BASE + i]@,
            decreases wanted - j,
        {
            out.push(self.strings[TREE_BASE + j].as_str());
            j += 1;
        }
        out
    }
}

/// Vocabulary of the desktop bridge's own ops.
pub open spec fn bridge_vocab_text(code: i64) -> Seq<char> {
    if code == 1 {
        "Browse"@
    } else if code == 2 {
        "Paste a Radicle ID (rad:z\u{2026}) for a repo already in local storage, then Open."@
    } else if code == 3 {
        "Open"@
    } else if code == 4 {
        "Back"@
    } else if code == 5 {
        "Could not open"@
    } else if code == 6 {
        "README"@
    } else if code == 7 {
        "Files"@
    } else {
        "?"@
    }
}

/// Text for a bridge vocabulary code; `?` for unknown codes.
pub fn vocab(code: i64) -> (r: &'static str)
    ensures
        r@ == bridge_vocab_text(code),
{
    match code {
        1 => "Browse",
        2 => "Paste a Radicle ID (rad:z\u{2026}) for a repo already in local storage, then Open.",
        3 => "Open",
        4 => "Back",
        5 => "Could not open",
        6 => "README",
        7 => "Files",
        _ => "?",
    }
}

/// What painting the guest view produced: a clicked button's message, or
/// the error that stopped reading the view.
#[derive(Debug)]
pub struct PaintResult {
    pub pending_msg: Option<i64>,
    pub error: Option<String>,
}

/// How a raw packed opcode takes part in the layout: tag 4 is a button,
/// 8 and 9 open and close cards, tags 1, 2, 5, 6, 7, 10 and 11 paint
/// something, anything else paints nothing.
pub open spec fn packed_kind_of(op: i64) -> OpKind {
    let tag = trem(op as int, 16);
    if tag == 4 {
        OpKind::Button
    } else if tag == 8 {
        OpKind::CardOpen
    } else if tag == 9 {
        OpKind::CardClose
    } else if tag == 1 || tag == 2 || tag == 5 || tag == 6 || tag == 7 || tag == 10 || tag == 11 {
        OpKind::Widget
    } else {
        OpKind::Skip
    }
}

/// The layout kinds of raw packed opcodes (see [`packed_kind_of`]).
pub fn packed_kinds(ops: &[i64]) -> (r: Vec<OpKind>)
    ensures
        r@ == ops@.map_values(|o: i64| packed_kind_of(o)),
{
    let mut out: Vec<OpKind> = Vec::new();
    let mut i: usize = 0;
    while i < ops.len()
        invariant
            i <= ops@.len(),
            out@ == ops@.take(i as int).map_values(|o: i64| packed_kind_of(o)),
        decreases ops@.len() - i,
    {
        let tag = ops[i] % 16;
        let kind = if tag == 4 {
            OpKind::Button
        } else if tag == 8 {
            OpKind::CardOpen
        } else if tag == 9 {
            OpKind::CardClose
        } else if tag == 1 || tag == 2 || tag == 5 || tag == 6 || tag == 7 || tag == 10 || tag == 11 {
            OpKind::Widget
        } else {
            OpKind::Skip
        };
        out.push(kind);
        i += 1;
        assert(out@ =~= ops@.take(i as int).map_values(|o: i64| packed_kind_of(o)));
    }
    assert(ops@.take(ops@.len() as int) =~= ops@);
    out
}

} // verus!
