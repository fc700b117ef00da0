use browse::markdown::{render, render_events, Block, Gap, MdEvent};

fn body(s: &str) -> Block {
    Block::Body(s.to_string())
}

#[test]
fn missing_readme_is_a_placeholder() {
    assert_eq!(render(""), vec![Block::Dim("(no README)".into())]);
    assert_eq!(render("(no README)"), vec![Block::Dim("(no README)".into())]);
}

#[test]
fn heading_and_paragraph() {
    let blocks = render("# Title\n\nSome text here.\n");
    assert_eq!(
        blocks,
        vec![
            Block::Title("Title".into()),
            Block::Space(Gap::Xs),
            body("Some text here."),
            Block::Space(Gap::Xs),
            Block::Space(Gap::Sm),
        ]
    );
}

#[test]
fn heading_with_url_is_body_text() {
    let blocks = render("## See https://example.com/x\n");
    assert_eq!(blocks[0], body("See https://example.com/x"));
    let blocks = render("### Deep\n");
    assert_eq!(blocks[0], Block::Subtitle("Deep".into()));
}

#[test]
fn list_items_get_bullets() {
    let blocks = render("- one\n- two\n");
    assert!(blocks.contains(&body("\u{2022} one")));
    assert!(blocks.contains(&body("\u{2022} two")));
}

#[test]
fn nested_list_is_indented() {
    let blocks = render("- a\n  - b\n");
    assert!(blocks.contains(&body("  \u{2022} b")));
}

#[test]
fn code_block_is_kept_and_trimmed_at_end() {
    let blocks = render("```\nlet x = 1;\n\n```\n");
    assert_eq!(blocks[0], Block::Code("let x = 1;".into()));
    assert_eq!(blocks[1], Block::Space(Gap::Sm));
}

#[test]
fn links_with_and_without_labels() {
    let blocks = render("[docs](https://example.com/d)\n");
    assert!(blocks.contains(&Block::NamedLink("docs".into(), "https://example.com/d".into())));
    let blocks = render("<https://example.com/a>\n");
    assert!(blocks.contains(&Block::Link("https://example.com/a".into())));
}

#[test]
fn inline_code_and_html() {
    let blocks = render("use `x` <b>now</b>\n");
    assert_eq!(blocks[0], body("use `x` bnow/b"));
}

#[test]
fn rule_is_a_separator() {
    let blocks = render("a\n\n---\n\nb\n");
    assert!(blocks.contains(&Block::Separator));
}

#[test]
fn events_fold_directly() {
    let events = vec![
        MdEvent::StartHeading(1),
        MdEvent::Text("  Hi ".into()),
        MdEvent::EndHeading,
        MdEvent::StartList,
        MdEvent::StartItem,
        MdEvent::Text("x".into()),
        MdEvent::Break,
        MdEvent::Text("y".into()),
        MdEvent::EndItem,
        MdEvent::EndList,
        MdEvent::StartLink("https://u".into()),
        MdEvent::EndLink,
    ];
    assert_eq!(
        render_events(&events),
        vec![
            Block::Title("Hi".into()),
            Block::Space(Gap::Xs),
            body("\u{2022} x y"),
            Block::Space(Gap::Xs),
            Block::Space(Gap::Xs),
            Block::Link("https://u".into()),
            Block::Space(Gap::Xs),
        ]
    );
}

#[test]
fn blank_heading_keeps_its_level_for_the_next_line() {
    let events = vec![
        MdEvent::StartHeading(2),
        MdEvent::EndHeading,
        MdEvent::Text("next".into()),
        MdEvent::EndParagraph,
    ];
    assert_eq!(
        render_events(&events),
        vec![Block::Subtitle("next".into()), Block::Space(Gap::Xs), Block::Space(Gap::Sm)]
    );
}
