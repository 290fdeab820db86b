use kandume::text::{numbered, pop, push, trim};

#[test]
fn trim_drops_unicode_whitespace_at_both_ends() {
    assert_eq!(trim("  my project \t\n"), "my project");
    assert_eq!(trim("\u{3000}\u{85}x y\u{a0}\u{2009}"), "x y");
    assert_eq!(trim(" \t "), "");
    assert_eq!(trim(""), "");
    assert_eq!(trim("a\u{200b}"), "a\u{200b}");
}

#[test]
fn rename_buffer_edits() {
    let mut s = String::from("ab");
    push(&mut s, 'é');
    assert_eq!(s, "abé");
    pop(&mut s);
    pop(&mut s);
    assert_eq!(s, "a");
    pop(&mut s);
    pop(&mut s);
    assert_eq!(s, "");
}

#[test]
fn numbered_labels() {
    assert_eq!(numbered("pane ", 3), "pane 3");
    assert_eq!(numbered("window ", 12), "window 12");
    assert_eq!(numbered("", 0), "0");
}
