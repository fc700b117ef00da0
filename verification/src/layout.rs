//! Layout of a guest view: the order in which decoded ops are painted.
//!
//! Ops are painted in order, except that consecutive buttons share one row
//! (ops that paint nothing do not end a row; the tab strip takes the row
//! beside its own buttons), and the ops between a card's
//! open and its matching close are painted inside the card. A close with no
//! open ends the range being painted.

use vstd::prelude::*;

verus! {

/// How an op takes part in the layout.
#[derive(Debug, Clone, Copy, PartialEq, Eq, Structural)]
pub enum OpKind {
    /// Painted on its own.
    Widget,
    /// Painted in a row with the buttons next to it.
    Button,
    /// Painted on its own, with the buttons waiting for a row placed beside it.
    WithRow,
    CardOpen,
    CardClose,
    /// Paints nothing.
    Skip,
}

/// One paint step, by op index.
#[derive(Debug, Clone, PartialEq, Eq)]
pub enum Cmd {
    /// Paint the op at this index.
    Widget(usize),
    /// Paint the buttons at these indices in one row.
    Row(Vec<usize>),
    /// Paint the op at this index with the buttons at these indices beside it.
    WithRow(usize, Vec<usize>),
    /// Open a card; the steps up to the matching [`Cmd::CardEnd`] go inside.
    CardStart,
    CardEnd,
}

/// A [`Cmd`] with its row taken as a sequence.
pub enum CmdView {
    Widget(usize),
    Row(Seq<usize>),
    WithRow(usize, Seq<usize>),
    CardStart,
    CardEnd,
}

impl View for Cmd {
    type V = CmdView;

    open spec fn view(&self) -> CmdView {
        match self {
            Cmd::Widget(i) => CmdView::Widget(*i),
            Cmd::Row(r) => CmdView::Row(r@),
            Cmd::WithRow(i, r) => CmdView::WithRow(*i, r@),
            Cmd::CardStart => CmdView::CardStart,
            Cmd::CardEnd => CmdView::CardEnd,
        }
    }
}

/// The views of a list of steps.
pub open spec fn cmd_views(v: Seq<Cmd>) -> Seq<CmdView> {
    v.map_values(|c: Cmd| c@)
}

/// Index of the close matching a card opened before `i`, scanning `i..end`
/// at nesting `depth`; `end` when the card is never closed.
pub open spec fn card_end(kinds: Seq<OpKind>, i: int, end: int, depth: int) -> int
    decreases end - i,
{
    if i >= end {
        end
    } else if kinds[i] == OpKind::CardOpen {
        card_end(kinds, i + 1, end, depth + 1)
    } else if kinds[i] == OpKind::CardClose {
        if depth - 1 == 0 {
            i
        } else {
            card_end(kinds, i + 1, end, depth - 1)
        }
    } else {
        card_end(kinds, i + 1, end, depth)
    }
}

/// A card's close lies in `i..=end`.
pub proof fn lemma_card_end_bounds(kinds: Seq<OpKind>, i: int, end: int, depth: int)
    requires
        i <= end,
    ensures
        i <= card_end(kinds, i, end, depth) <= end,
    decreases end - i,
{
    if i < end {
        if kinds[i] == OpKind::CardOpen {
            lemma_card_end_bounds(kinds, i + 1, end, depth + 1);
        } else if kinds[i] == OpKind::CardClose && depth - 1 != 0 {
            lemma_card_end_bounds(kinds, i + 1, end, depth - 1);
        } else if kinds[i] != OpKind::CardClose {
            lemma_card_end_bounds(kinds, i + 1, end, depth);
        }
    }
}

/// The pending button row, as a step (none when empty).
pub open spec fn flush_row(row: Seq<usize>) -> Seq<CmdView> {
    if row.len() > 0 {
        seq![CmdView::Row(row)]
    } else {
        seq![]
    }
}

/// The steps that paint ops `i..end`, with the buttons of `row` waiting to
/// be painted in a row.
pub open spec fn walk(kinds: Seq<OpKind>, i: int, end: int, row: Seq<usize>) -> Seq<CmdView>
    decreases end - i,
{
    if i < 0 || i >= end {
        flush_row(row)
    } else if kinds[i] == OpKind::Button {
        walk(kinds, i + 1, end, row.push(i as usize))
    } else if kinds[i] == OpKind::Skip {
        walk(kinds, i + 1, end, row)
    } else if kinds[i] == OpKind::WithRow {
        seq![CmdView::WithRow(i as usize, row)] + walk(kinds, i + 1, end, seq![])
    } else if kinds[i] == OpKind::CardClose {
        flush_row(row)
    } else if kinds[i] == OpKind::CardOpen {
        let close = card_end(kinds, i + 1, end, 1);
        proof {
            lemma_card_end_bounds(kinds, i + 1, end, 1);
        }
        flush_row(row) + seq![CmdView::CardStart] + walk(kinds, i + 1, close, seq![]) + seq![
            CmdView::CardEnd,
        ] + if close >= end {
            Seq::<CmdView>::empty()
        } else {
            walk(kinds, close + 1, end, seq![])
        }
    } else {
        flush_row(row) + seq![CmdView::Widget(i as usize)] + walk(kinds, i + 1, end, seq![])
    }
}

/// Find the close of the card whose body starts at `from`.
pub fn find_card_close(kinds: &[OpKind], from: usize, end: usize) -> (r: usize)
    requires
        from <= end <= kinds@.len(),
        kinds@.len() < usize::MAX,
    ensures
        r == card_end(kinds@, from as int, end as int, 1),
{
    let mut depth: usize = 1;
    let mut i = from;
    while i < end
        invariant
            from <= i <= end <= kinds@.len(),
            kinds@.len() < usize::MAX,
            1 <= depth <= 1 + (i - from),
            card_end(kinds@, from as int, end as int, 1) == card_end(
                kinds@,
                i as int,
                end as int,
                depth as int,
            ),
        decreases end - i,
    {
        match kinds[i] {
            OpKind::CardOpen => depth += 1,
            OpKind::CardClose => {
                depth -= 1;
                if depth == 0 {
                    return i;
                }
            },
            _ => {},
        }
        i += 1;
    }
    end
}

fn flush_into(row: &mut Vec<usize>, out: &mut Vec<Cmd>)
    ensures
        final(row)@.len() == 0,
        cmd_views(final(out)@) == cmd_views(old(out)@) + flush_row(old(row)@),
{
    if row.len() > 0 {
        let mut taken: Vec<usize> = Vec::new();
        std::mem::swap(&mut taken, row);
        out.push(Cmd::Row(taken));
    }
    assert(cmd_views(out@) =~= cmd_views(old(out)@) + flush_row(old(row)@));
}

/// Append the steps that paint ops `start..end` to `out`.
fn plan_range(kinds: &[OpKind], start: usize, end: usize, out: &mut Vec<Cmd>)
    requires
        start <= end <= kinds@.len(),
        kinds@.len() < usize::MAX,
    ensures
        cmd_views(final(out)@) == cmd_views(old(out)@) + walk(kinds@, start as int, end as int, seq![]),
    decreases end - start,
{
    let mut row: Vec<usize> = Vec::new();
    let mut i = start;
    let ghost goal = cmd_views(old(out)@) + walk(kinds@, start as int, end as int, seq![]);
    assert(row@ =~= Seq::<usize>::empty());
    while i < end
        invariant
            start <= i <= end <= kinds@.len(),
            kinds@.len() < usize::MAX,
            goal == cmd_views(old(out)@) + walk(kinds@, start as int, end as int, seq![]),
            cmd_views(out@) + walk(kinds@, i as int, end as int, row@) == goal,
        decreases end - i,
    {
        let ghost before = cmd_views(out@);
        match kinds[i] {
            OpKind::Button => {
                row.push(i);
                i += 1;
            },
            OpKind::Skip => {
                i += 1;
            },
            OpKind::WithRow => {
                let mut taken: Vec<usize> = Vec::new();
                std::mem::swap(&mut taken, &mut row);
                let ghost r = taken@;
                out.push(Cmd::WithRow(i, taken));
                assert(cmd_views(out@) =~= before + seq![CmdView::WithRow(i, r)]);
                i += 1;
                assert(row@ =~= Seq::<usize>::empty());
            },
            OpKind::CardClose => {
                let ghost r = row@;
                assert(walk(kinds@, i as int, end as int, r) == flush_row(r));
                flush_into(&mut row, out);
                assert(cmd_views(out@) =~= goal);
                return;
            },
            OpKind::CardOpen => {
                let ghost r = row@;
                flush_into(&mut row, out);
                let close = find_card_close(kinds, i + 1, end);
                proof {
                    lemma_card_end_bounds(kinds@, i + 1, end as int, 1);
                }
                let ghost after_flush = cmd_views(out@);
                out.push(Cmd::CardStart);
                assert(cmd_views(out@) =~= after_flush + seq![CmdView::CardStart]);
                let ghost after_start = cmd_views(out@);
                plan_range(kinds, i + 1, close, out);
                let ghost after_body = cmd_views(out@);
                out.push(Cmd::CardEnd);
                assert(cmd_views(out@) =~= after_body + seq![CmdView::CardEnd]);
                if close >= end {
                    assert(cmd_views(out@) =~= before + flush_row(r) + seq![CmdView::CardStart]
                        + walk(kinds@, i + 1, close as int, seq![]) + seq![CmdView::CardEnd]);
                    assert(cmd_views(out@) =~= goal);
                    return;
                }
                assert(cmd_views(out@) =~= before + flush_row(r) + seq![CmdView::CardStart]
                    + walk(kinds@, i + 1, close as int, seq![]) + seq![CmdView::CardEnd]);
                i = close + 1;
                assert(row@ =~= Seq::<usize>::empty());
            },
            OpKind::Widget => {
                let ghost r = row@;
                flush_into(&mut row, out);
                let ghost after_flush = cmd_views(out@);
                out.push(Cmd::Widget(i));
                assert(cmd_views(out@) =~= after_flush + seq![CmdView::Widget(i)]);
                assert(cmd_views(out@) =~= before + flush_row(r) + seq![CmdView::Widget(i)]);
                i += 1;
                assert(row@ =~= Seq::<usize>::empty());
            },
        }
    }
    flush_into(&mut row, out);
}

/// The paint steps for a whole view of ops with these kinds.
pub fn plan(kinds: &[OpKind]) -> (r: Vec<Cmd>)
    requires
        kinds@.len() < usize::MAX,
    ensures
        cmd_views(r@) == walk(kinds@, 0, kinds@.len() as int, seq![]),
{
    let mut out: Vec<Cmd> = Vec::new();
    plan_range(kinds, 0, kinds.len(), &mut out);
    assert(cmd_views(out@) =~= walk(kinds@, 0, kinds@.len() as int, seq![]));
    out
}

} // verus!
