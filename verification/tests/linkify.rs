use browse::linkify::{is_url, segments, Segment};

#[test]
fn finds_bare_https() {
    let parts = segments("see https://example.com/a for more");
    assert_eq!(
        parts,
        vec![
            Segment::Text("see "),
            Segment::Url("https://example.com/a"),
            Segment::Text(" for more"),
        ]
    );
}

#[test]
fn trims_trailing_punctuation() {
    let parts = segments("log https://ci.example/run/1.");
    assert_eq!(
        parts,
        vec![
            Segment::Text("log "),
            Segment::Url("https://ci.example/run/1"),
            Segment::Text("."),
        ]
    );
}

#[test]
fn whole_string_url() {
    assert!(is_url("https://boxci.boxd.sh/runs/abc"));
    assert!(!is_url("log https://boxci.boxd.sh/runs/abc"));
}

#[test]
fn keeps_balanced_parens() {
    let parts = segments("https://example.com/foo_(bar)");
    assert_eq!(parts, vec![Segment::Url("https://example.com/foo_(bar)")]);
}

#[test]
fn unbalanced_closing_paren_is_dropped() {
    let parts = segments("(see https://example.com/x)");
    assert_eq!(
        parts,
        vec![
            Segment::Text("(see "),
            Segment::Url("https://example.com/x"),
            Segment::Text(")"),
        ]
    );
}

#[test]
fn scheme_without_body_stays_text() {
    assert_eq!(segments("http:// nothing"), vec![Segment::Text("http:// nothing")]);
    assert_eq!(segments("https://"), vec![Segment::Text("https://")]);
}

#[test]
fn http_and_non_ascii_neighbours() {
    let parts = segments("é http://a.b/ç ü");
    assert_eq!(
        parts,
        vec![
            Segment::Text("é "),
            Segment::Url("http://a.b/"),
            Segment::Text("ç ü"),
        ]
    );
}

#[test]
fn segments_concatenate_to_text() {
    let text = "a https://x.y/z, b http://q.r! (c) https://s.t/u_(v).";
    let joined: String = segments(text)
        .iter()
        .map(|s| match s {
            Segment::Text(t) => *t,
            Segment::Url(u) => *u,
        })
        .collect();
    assert_eq!(joined, text);
}

#[test]
fn empty_text_has_no_segments() {
    assert!(segments("").is_empty());
    assert!(!is_url(""));
    assert!(is_url("  https://example.com/a \n"));
}
