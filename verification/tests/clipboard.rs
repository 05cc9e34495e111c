use ropy::clipboard::listener::{
    on_clipboard_change, record_capture, record_capture_at, CaptureAction, ClipboardReading, Eviction,
};
use ropy::clipboard::utils::{image_file_name, image_fingerprint};
use ropy::repository::models::thumbnail_path;
use ropy::text::decimal_text;
use ropy::clipboard::writer::{complete_write, WriteOutcome};
use ropy::clipboard::{ClipboardEvent, CopyRequest, LastCopyState};
use ropy::repository::clock::ClockReading;
use ropy::repository::models::{ContentType, Timestamp};
use ropy::repository::{ClipboardRecord, ClipboardRepository};
use tempfile::{tempdir, TempDir};

fn open_store() -> (ClipboardRepository, TempDir) {
    let temp_dir = tempdir().expect("Failed to create temp dir");
    let repo = ClipboardRepository::init(temp_dir.path().join("test.db"), temp_dir.path().join("images"))
        .expect("Failed to create test repository");
    (repo, temp_dir)
}

fn at(seconds: i64) -> ClockReading {
    ClockReading {
        at: Timestamp { seconds, subsec_nanos: 0 },
        epoch_nanos: Some(seconds * 1_000_000_000),
    }
}

/// What the application does with one notification: a step of the monitor,
/// and the capture of what it emits.
fn notify(
    last_copy: &mut LastCopyState,
    repo: &mut ClipboardRepository,
    mirror: &mut Vec<ClipboardRecord>,
    text: &str,
    max: usize,
) {
    match on_clipboard_change(last_copy, ClipboardReading::Text(text.to_string())) {
        CaptureAction::Emit(event) => {
            record_capture(repo, mirror, event, max).expect("Failed to record");
        }
        CaptureAction::Ignore => {}
        CaptureAction::PersistImage => panic!("a text is no image"),
    }
}

#[test]
fn the_same_text_twice_in_a_row_is_stored_once() {
    let (mut repo, _dir) = open_store();
    let mut mirror = Vec::new();
    let mut last_copy = LastCopyState::empty();
    notify(&mut last_copy, &mut repo, &mut mirror, "X", 100);
    notify(&mut last_copy, &mut repo, &mut mirror, "X", 100);
    assert_eq!(repo.count().expect("Failed to count"), 1);
    assert_eq!(mirror.len(), 1);
    assert_eq!(mirror[0].content, "X");
    assert_eq!(mirror[0].content_type, ContentType::Text);
}

#[test]
fn the_echo_of_a_write_back_is_not_captured() {
    let (mut repo, _dir) = open_store();
    let mut mirror = Vec::new();
    let mut last_copy = LastCopyState::empty();
    notify(&mut last_copy, &mut repo, &mut mirror, "X", 100);
    assert_eq!(repo.count().expect("Failed to count"), 1);

    let spent = complete_write(&mut last_copy, CopyRequest::Text("Y".to_string()), WriteOutcome::TextWritten);
    assert!(spent.is_empty());
    assert!(last_copy.is_text("Y"));
    notify(&mut last_copy, &mut repo, &mut mirror, "Y", 100);
    assert_eq!(repo.count().expect("Failed to count"), 1);
    assert_eq!(mirror.len(), 1);

    // a copy from outside is captured again
    notify(&mut last_copy, &mut repo, &mut mirror, "X", 100);
    assert_eq!(repo.count().expect("Failed to count"), 2);
}

#[test]
fn a_failed_write_back_leaves_the_last_copy() {
    let mut last_copy = LastCopyState::empty();
    assert!(matches!(
        on_clipboard_change(&mut last_copy, ClipboardReading::Text("X".to_string())),
        CaptureAction::Emit(ClipboardEvent::Text(_))
    ));
    let spent = complete_write(&mut last_copy, CopyRequest::Text("Y".to_string()), WriteOutcome::Failed);
    assert!(spent.is_empty());
    assert!(last_copy.is_text("X"));
    let spent = complete_write(&mut last_copy, CopyRequest::Image("/i/1.png".to_string()), WriteOutcome::Failed);
    assert!(spent.is_empty());
    assert!(last_copy.is_text("X"));
    // an outcome that does not fit the request changes nothing either
    let spent = complete_write(&mut last_copy, CopyRequest::Image("/i/1.png".to_string()), WriteOutcome::TextWritten);
    assert!(spent.is_empty());
    let spent = complete_write(&mut last_copy, CopyRequest::Text("Y".to_string()), WriteOutcome::ImageWritten(1));
    assert!(spent.is_empty());
    assert!(last_copy.is_text("X"));
    // the genuine copy of "Y" from outside is still captured
    assert!(matches!(
        on_clipboard_change(&mut last_copy, ClipboardReading::Text("Y".to_string())),
        CaptureAction::Emit(ClipboardEvent::Text(_))
    ));
}

#[test]
fn a_written_image_uses_up_its_files_and_hides_its_echo() {
    let mut last_copy = LastCopyState::empty();
    let pixels = [1u8, 2, 3, 4];
    let fingerprint = image_fingerprint(&pixels);
    let spent = complete_write(
        &mut last_copy,
        CopyRequest::Image("/i/17.png".to_string()),
        WriteOutcome::ImageWritten(fingerprint),
    );
    assert_eq!(spent, vec!["/i/17.png", "/i/17_thumb.png"]);
    let spent = complete_write(
        &mut last_copy,
        CopyRequest::Image("/i.png/17.png".to_string()),
        WriteOutcome::ImageWritten(fingerprint),
    );
    assert_eq!(spent, vec!["/i.png/17.png", "/i.png/17_thumb.png"]);
    assert!(last_copy.is_image(fingerprint));
    assert!(!last_copy.is_text(""));
    assert!(matches!(
        on_clipboard_change(&mut last_copy, ClipboardReading::Image(image_fingerprint(&pixels))),
        CaptureAction::Ignore
    ));
    assert!(matches!(
        on_clipboard_change(&mut last_copy, ClipboardReading::Image(image_fingerprint(&[1u8, 2, 3, 5]))),
        CaptureAction::PersistImage
    ));
    assert!(last_copy.is_image(image_fingerprint(&[1u8, 2, 3, 5])));
}

#[test]
fn the_monitor_tells_the_novel_from_the_known() {
    let mut last_copy = LastCopyState::empty();
    // at startup the empty text is what the clipboard is believed to hold
    assert!(matches!(
        on_clipboard_change(&mut last_copy, ClipboardReading::Text(String::new())),
        CaptureAction::Ignore
    ));
    match on_clipboard_change(&mut last_copy, ClipboardReading::Text("a".to_string())) {
        CaptureAction::Emit(ClipboardEvent::Text(text)) => assert_eq!(text, "a"),
        other => panic!("expected a text event, got {:?}", other),
    }
    assert!(last_copy.is_text("a"));
    // a failed read changes nothing
    assert!(matches!(on_clipboard_change(&mut last_copy, ClipboardReading::Unreadable), CaptureAction::Ignore));
    assert!(last_copy.is_text("a"));
    assert!(matches!(
        on_clipboard_change(&mut last_copy, ClipboardReading::Image(7)),
        CaptureAction::PersistImage
    ));
    assert!(last_copy.is_image(7));
    assert!(matches!(on_clipboard_change(&mut last_copy, ClipboardReading::Image(7)), CaptureAction::Ignore));
    // the text is novel again after the image
    assert!(matches!(
        on_clipboard_change(&mut last_copy, ClipboardReading::Text("a".to_string())),
        CaptureAction::Emit(_)
    ));
    last_copy.clear();
    assert!(last_copy.is_text(""));
}

#[test]
fn fingerprints_tell_images_apart() {
    let a = image_fingerprint(&[0u8; 16]);
    assert_eq!(a, image_fingerprint(&[0u8; 16]));
    assert_ne!(a, image_fingerprint(&[0u8; 17]));
    assert_ne!(a, image_fingerprint(&[1u8; 16]));
    assert_ne!(image_fingerprint(&[]), image_fingerprint(&[0u8]));
}

#[test]
fn a_history_of_three_keeps_the_three_newest() {
    let (mut repo, _dir) = open_store();
    let mut mirror = Vec::new();
    let mut evictions = Vec::new();
    for (seconds, text) in [(1i64, "a"), (2, "b"), (3, "c"), (4, "d")] {
        let eviction =
            record_capture_at(&mut repo, &mut mirror, at(seconds), ClipboardEvent::Text(text.to_string()), 3)
                .expect("Failed to record");
        evictions.push(eviction);
    }
    assert!(matches!(evictions[0], Eviction::NotNeeded));
    assert!(matches!(evictions[1], Eviction::NotNeeded));
    assert!(matches!(evictions[2], Eviction::NotNeeded));
    assert!(matches!(evictions[3], Eviction::Done(1)));
    assert_eq!(repo.count().expect("Failed to count"), 3);
    let stored: Vec<String> =
        repo.get_recent(10).expect("Failed to get recent").iter().map(|r| r.content.clone()).collect();
    assert_eq!(stored, vec!["d", "c", "b"]);
    let mirrored: Vec<String> = mirror.iter().map(|r| r.content.clone()).collect();
    assert_eq!(mirrored, vec!["d", "c", "b"]);
    assert!(repo.get_by_id(1_000_000_000).expect("Failed to get").is_none());
}

#[test]
fn an_image_capture_is_recorded_with_its_path() {
    let (mut repo, _dir) = open_store();
    let mut mirror = Vec::new();
    record_capture_at(&mut repo, &mut mirror, at(5), ClipboardEvent::Image("/i/5.png".to_string()), 10)
        .expect("Failed to record");
    assert_eq!(mirror.len(), 1);
    assert_eq!(mirror[0].id, 5_000_000_000);
    assert_eq!(mirror[0].content, "/i/5.png");
    assert_eq!(mirror[0].content_type, ContentType::Image);
    assert_eq!(mirror[0].created_at, Timestamp { seconds: 5, subsec_nanos: 0 });
    let stored = repo.get_by_id(5_000_000_000).expect("Failed to get").expect("Record not found");
    assert_eq!(stored, mirror[0]);
}

#[test]
fn a_history_of_none_keeps_nothing() {
    let (mut repo, _dir) = open_store();
    let mut mirror = Vec::new();
    let eviction = record_capture_at(&mut repo, &mut mirror, at(1), ClipboardEvent::Text("a".to_string()), 0)
        .expect("Failed to record");
    assert!(matches!(eviction, Eviction::Done(1)));
    assert!(mirror.is_empty());
    assert_eq!(repo.count().expect("Failed to count"), 0);
}

#[test]
fn an_image_is_stored_under_its_id() {
    assert_eq!(image_file_name(0), "0.png");
    assert_eq!(image_file_name(7), "7.png");
    assert_eq!(image_file_name(10), "10.png");
    assert_eq!(image_file_name(1_700_000_000_123_456_789), "1700000000123456789.png");
    assert_eq!(image_file_name(u64::MAX), "18446744073709551615.png");
    assert_eq!(thumbnail_path(&image_file_name(1_002_003)), "1002003_thumb.png");
    let path = format!("/data.png/images/{}", image_file_name(42));
    assert_eq!(thumbnail_path(&path), "/data.png/images/42_thumb.png");
    for n in [0u64, 9, 10, 99, 100, 101, 12_345, u64::MAX] {
        assert_eq!(decimal_text(n), format!("{}", n));
    }
}
