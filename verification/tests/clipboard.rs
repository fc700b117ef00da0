use browse::clipboard::PendingRead;

#[test]
fn pending_read_is_handed_out_once() {
    let mut p = PendingRead::new();
    assert_eq!(p.poll(), None);
    p.request(true);
    assert_eq!(p.poll(), None);
    p.complete(Some("rad:z".into()));
    assert_eq!(p.poll(), Some(Some("rad:z".to_string())));
    assert_eq!(p.poll(), None);
    p.request(false);
    assert_eq!(p.poll(), Some(None));
}

#[test]
fn an_empty_clipboard_text_is_no_text() {
    let mut p = PendingRead::new();
    p.request(true);
    p.complete(Some(String::new()));
    assert_eq!(p.poll(), Some(None));
}
