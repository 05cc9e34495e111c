use ropy::display::{format_clipboard_content, get_hex_color};
use ropy::repository::models::{ContentType, Timestamp};
use ropy::repository::ClipboardRecord;

fn text(content: &str) -> ClipboardRecord {
    ClipboardRecord {
        id: 1,
        content: content.to_string(),
        created_at: Timestamp { seconds: 0, subsec_nanos: 0 },
        content_type: ContentType::Text,
    }
}

#[test]
fn short_contents_show_whole() {
    assert_eq!(format_clipboard_content(&text("")), "");
    assert_eq!(format_clipboard_content(&text("hello")), "hello");
    let hundred = "x".repeat(100);
    assert_eq!(format_clipboard_content(&text(&hundred)), hundred);
}

#[test]
fn long_contents_show_their_first_hundred_characters() {
    let long = "x".repeat(101);
    assert_eq!(format_clipboard_content(&text(&long)), format!("{}...", "x".repeat(100)));
    // characters count, not bytes
    let hundred = "é".repeat(100);
    assert_eq!(format_clipboard_content(&text(&hundred)), hundred);
    let longer = format!("{}文", "é".repeat(100));
    assert_eq!(format_clipboard_content(&text(&longer)), format!("{}...", "é".repeat(100)));
}

#[test]
fn hex_colours_are_read() {
    assert_eq!(get_hex_color("#000000"), Some(0));
    assert_eq!(get_hex_color("#ffffff"), Some(0xffffff));
    assert_eq!(get_hex_color("#1a2B3c"), Some(0x1a2b3c));
    assert_eq!(get_hex_color("#fff"), Some(0xffffff));
    assert_eq!(get_hex_color("#1aF"), Some(0x11aaff));
    assert_eq!(get_hex_color("#000"), Some(0));
}

#[test]
fn other_texts_are_no_colours() {
    for text in ["", "#", "fff", "#ff", "#ffff", "#fffff", "#fffffff", "#ggg", "#12345g", " #fff", "#fff ", "#fff\n", "#ｆｆｆ"] {
        assert_eq!(get_hex_color(text), None, "{:?}", text);
    }
}
