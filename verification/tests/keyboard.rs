use browse::keyboard::normalize_paste;

#[test]
fn normalize_strips_bom_and_whitespace() {
    assert_eq!(normalize_paste("\u{feff}  rad:zabc\n"), "rad:zabc");
    assert_eq!(normalize_paste("rad:zabc"), "rad:zabc");
}

#[test]
fn normalize_keeps_inner_marks_and_space() {
    assert_eq!(normalize_paste("\u{feff}\u{feff}a b"), "a b");
    assert_eq!(normalize_paste(" \u{feff}x"), "\u{feff}x");
    assert_eq!(normalize_paste("\u{feff}"), "");
}
