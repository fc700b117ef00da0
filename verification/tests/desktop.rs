use browse::desktop::gleam_bridge::{vocab as bridge_vocab, Slots, TREE_BASE};
use browse::desktop::rad::RepoView;
use browse::desktop::view_api::{vocab, Op, ViewModel};
use browse::view_api::FileRow;

#[test]
fn decode_desktop_ops() {
    assert_eq!(Op::decode(0), Op::Meta);
    assert_eq!(Op::decode(16 * 3 + 1), Op::Title(3));
    assert_eq!(Op::decode(16 * (65_536 + 256 * 2 + 3) + 4), Op::Button { primary: true, msg: 2, label: 3 });
    assert_eq!(Op::decode(16 * (256 * 1 + 4) + 10), Op::Slot { style: 1, id: 4 });
    assert_eq!(Op::decode(16 * 5 + 11), Op::TreeList(5));
    assert_eq!(Op::decode(16 * -2 + 11), Op::Unknown(-21));
    assert_eq!(Op::decode(3), Op::Unknown(3));
    assert_eq!(Op::decode(-5), Op::Unknown(-5));
    assert_eq!(Op::decode(15), Op::RepoTabs);
}

#[test]
fn vocabularies() {
    assert_eq!(vocab(9), "Patches");
    assert_eq!(vocab(10), "Issues");
    assert_eq!(vocab(11), "?");
    assert_eq!(bridge_vocab(7), "Files");
    assert_eq!(bridge_vocab(8), "?");
}

#[test]
fn slots_from_view_and_error() {
    let view = RepoView {
        rid: "rad:z1".into(),
        name: "demo".into(),
        description: String::new(),
        head: "abcd".into(),
        head_oid: "abcdef".into(),
        readme: "# r".into(),
        files: vec![FileRow { name: "src".into(), is_tree: true }, FileRow { name: "a".into(), is_tree: false }],
        commits: Vec::new(),
    };
    let slots = Slots::from_view(&view);
    assert_eq!(slots.strings.len(), TREE_BASE + 2);
    assert_eq!(slots.get(1), "(no description)");
    assert_eq!(slots.get(3), "head abcd");
    assert_eq!(slots.get(99), "");
    assert_eq!(slots.tree_rows(5), vec!["src", "a"]);
    assert_eq!(slots.tree_rows(1), vec!["src"]);
    assert!(slots.tree_rows(-1).is_empty());

    let err = Slots::from_error("boom");
    assert_eq!(err.strings.len(), TREE_BASE);
    assert_eq!(err.get(5), "boom");
    assert!(err.tree_rows(3).is_empty());
}

#[test]
fn model_strings() {
    let mut m = ViewModel::default();
    m.strings.push("x".into());
    assert_eq!(m.string(0), "x");
    assert_eq!(m.string(1), "");
}
