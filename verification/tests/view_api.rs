use browse::view_api::{find_card_end, label_fallback, op_kinds, ui_label, vocab, Op, PaintEffects, ViewModel};

#[test]
fn packed_ops_decode_by_tag() {
    assert_eq!(Op::decode_packed(0), (Op::Meta, false));
    assert_eq!(Op::decode_packed(16 * 9 + 1), (Op::Title(String::new()), true));
    assert_eq!(Op::decode_packed(16 * 2 + 5), (Op::Space(2), false));
    assert_eq!(Op::decode_packed(16 * (256 * 2 + 7) + 10), (Op::Slot { style: 2, id: 7 }, false));
    assert_eq!(Op::decode_packed(16 * 4 + 12), (Op::MdBody(4), false));
    assert_eq!(Op::decode_packed(16 * 6 + 13), (Op::FileList(6), false));
    assert_eq!(Op::decode_packed(16 * 3 + 14), (Op::CommitList(3), false));
    assert_eq!(Op::decode_packed(8), (Op::CardOpen, false));
    assert_eq!(Op::decode_packed(9), (Op::CardClose, false));
    assert_eq!(Op::decode_packed(15), (Op::RepoTabs, false));
    assert_eq!(Op::decode_packed(-3), (Op::Unknown(-3), false));
}

#[test]
fn packed_button_comes_back_with_its_fields() {
    // primary, message 3, label code 4 ("Back").
    let packed = 16 * (65_536 + 256 * 3 + 4) + 4;
    assert_eq!(Op::decode(packed), Op::Button { primary: true, msg: 3, label: "Back".to_string() });
    let packed = 16 * (256 * 1 + 3) + 4;
    assert_eq!(Op::decode(packed), Op::Button { primary: false, msg: 1, label: "Open".to_string() });
}

#[test]
fn legacy_text_comes_from_the_vocabulary() {
    assert_eq!(Op::decode(16 * 1 + 1), Op::Title("Browse".to_string()));
    assert_eq!(Op::decode(16 * 8 + 7), Op::Header("Commits".to_string()));
    assert_eq!(Op::decode(16 * 99 + 6), Op::Status("?".to_string()));
    assert_eq!(vocab(6), "README");
    assert_eq!(vocab(0), "?");
}

#[test]
fn guest_text_replaces_only_when_non_empty() {
    let mut op = Op::Body(String::new());
    op.apply_guest_text("hello".to_string());
    assert_eq!(op, Op::Body("hello".to_string()));
    op.apply_guest_text(String::new());
    assert_eq!(op, Op::Body("hello".to_string()));
    let mut meta = Op::Meta;
    meta.apply_guest_text("ignored".to_string());
    assert_eq!(meta, Op::Meta);
}

#[test]
fn labels_fall_back_to_the_host_copy() {
    assert_eq!(label_fallback(26), "Patches");
    assert_eq!(label_fallback(99), "?");
    assert_eq!(ui_label(2, Ok(Some("Öffnen".to_string()))), "Öffnen");
    assert_eq!(ui_label(2, Ok(Some(String::new()))), "Open");
    assert_eq!(ui_label(3, Ok(None)), "RID");
    assert_eq!(ui_label(28, Err("no guest".to_string())), "Jobs");
}

#[test]
fn model_strings_are_empty_past_the_end() {
    let mut model = ViewModel::default();
    model.strings = vec!["name".to_string()];
    assert_eq!(model.string(0), "name");
    assert_eq!(model.string(5), "");
}

#[test]
fn card_end_skips_nested_cards() {
    let ops = vec![Op::CardOpen, Op::Meta, Op::CardOpen, Op::CardClose, Op::CardClose, Op::Meta];
    assert_eq!(find_card_end(&ops, 1, ops.len()), 4);
    assert_eq!(find_card_end(&ops, 5, ops.len()), 6);
    assert_eq!(op_kinds(&ops).len(), 6);
}

#[test]
fn later_effects_win() {
    let mut fx = PaintEffects { pending_msg: Some(1), open_rid: Some("rad:a".to_string()) };
    fx.merge(PaintEffects { pending_msg: Some(2), open_rid: None });
    assert_eq!(fx.pending_msg, Some(2));
    assert_eq!(fx.open_rid.as_deref(), Some("rad:a"));
}
