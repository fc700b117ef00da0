use browse::desktop::gleam_bridge::packed_kinds;
use browse::layout::{find_card_close, plan, Cmd, OpKind};
use browse::view_api::{op_kinds, Op};

use OpKind::{Button, CardClose, CardOpen, Skip, Widget, WithRow};

#[test]
fn buttons_share_a_row_until_a_widget() {
    let steps = plan(&[Widget, Button, Skip, Button, Widget, Button]);
    assert_eq!(
        steps,
        vec![
            Cmd::Widget(0),
            Cmd::Row(vec![1, 3]),
            Cmd::Widget(4),
            Cmd::Row(vec![5]),
        ]
    );
}

#[test]
fn cards_nest() {
    let steps = plan(&[CardOpen, Widget, CardOpen, Button, CardClose, CardClose, Widget]);
    assert_eq!(
        steps,
        vec![
            Cmd::CardStart,
            Cmd::Widget(1),
            Cmd::CardStart,
            Cmd::Row(vec![3]),
            Cmd::CardEnd,
            Cmd::CardEnd,
            Cmd::Widget(6),
        ]
    );
}

#[test]
fn unclosed_card_runs_to_the_end() {
    let steps = plan(&[Button, CardOpen, Widget]);
    assert_eq!(
        steps,
        vec![Cmd::Row(vec![0]), Cmd::CardStart, Cmd::Widget(2), Cmd::CardEnd]
    );
}

#[test]
fn stray_close_ends_the_view() {
    let steps = plan(&[Widget, CardClose, Widget]);
    assert_eq!(steps, vec![Cmd::Widget(0)]);
}

#[test]
fn card_close_search() {
    let kinds = [CardOpen, CardOpen, CardClose, CardClose, Widget];
    assert_eq!(find_card_close(&kinds, 1, 5), 3);
    assert_eq!(find_card_close(&kinds, 4, 5), 5);
}

#[test]
fn op_kinds_follow_the_ops() {
    let ops = vec![
        Op::Meta,
        Op::Button { primary: true, msg: 1, label: "Open".into() },
        Op::CardOpen,
        Op::CardClose,
        Op::Unknown(3),
    ];
    assert_eq!(op_kinds(&ops), vec![Widget, Button, CardOpen, CardClose, Skip]);
}

#[test]
fn packed_kinds_follow_the_tags() {
    assert_eq!(
        packed_kinds(&[16 + 1, 4, 8, 9, 3, 11, -8, 16 * 7 + 10]),
        vec![Widget, Button, CardOpen, CardClose, Skip, Widget, Skip, Widget]
    );
}

#[test]
fn tab_strip_takes_the_pending_buttons() {
    let steps = plan(&[Button, Skip, Button, WithRow, Button, Widget, WithRow]);
    assert_eq!(
        steps,
        vec![
            Cmd::WithRow(3, vec![0, 2]),
            Cmd::Row(vec![4]),
            Cmd::Widget(5),
            Cmd::WithRow(6, vec![]),
        ]
    );
    let ops = vec![Op::RepoTabs, Op::RepoList];
    assert_eq!(op_kinds(&ops), vec![WithRow, Widget]);
}
