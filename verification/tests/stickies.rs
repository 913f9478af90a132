use holograph_server::stickies::{sticky_edit, sticky_edit_item, sticky_open_packet, sticky_stored_text, text_range};

#[test]
fn reads_edited_note() {
    assert_eq!(sticky_edit_item("AT12/FFFF33 hello"), Some(12));
    assert_eq!(sticky_edit_item("AT12"), None);
    assert_eq!(sticky_edit_item("ATx/FFFF33"), None);
}

#[test]
fn reads_note_colour_and_text() {
    assert_eq!(
        sticky_edit("AT12/FFFF33 hello", 12, "post.it"),
        Some(("FFFF33".to_string(), " hello".to_string()))
    );
    assert_eq!(
        sticky_edit("AT12/FFFF33 hello", 12, "post.it.vd"),
        Some(("FFFFFF".to_string(), " hello".to_string()))
    );
    assert_eq!(sticky_edit("AT12/000000 hi", 12, "post.it"), None);
    assert_eq!(sticky_edit("AT12/FFFF33 hi", 12, "poster"), None);
    let long = format!("AT12/FFFF33{}", "x".repeat(685));
    assert_eq!(sticky_edit(&long, 12, "post.it"), None);
    let fits = format!("AT12/FFFF33{}", "x".repeat(684));
    assert!(sticky_edit(&fits, 12, "post.it").is_some());
}

#[test]
fn stores_note_text() {
    assert_eq!(sticky_stored_text("a/rb'c"), "a\rb\\'c");
    assert_eq!(sticky_stored_text("/"), "/");
    assert_eq!(sticky_open_packet(12, "FFFF33", "hi"), "@p12\tFFFF33 hi");
}

#[test]
fn slices_by_bytes() {
    assert_eq!(text_range("héllo", 0, 1), "h");
    assert_eq!(text_range("héllo", 1, 3), "é");
    assert_eq!(text_range("héllo", 1, 2), "");
    assert_eq!(text_range("abc", 2, 1), "");
}
