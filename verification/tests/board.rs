use ropy::board::{
    clamp_selection, clear_history, confirm_record, copy_records, copy_request_for, delete_record,
    get_filtered_records, key_action, load_initial_records, records_or_none, select_next,
    select_prev, KeyAction,
};
use ropy::clipboard::{CopyRequest, LastCopyState};
use ropy::repository::clock::ClockReading;
use ropy::repository::errors::RepositoryError;
use ropy::repository::models::{ContentType, Timestamp};
use ropy::repository::{ClipboardRecord, ClipboardRepository};
use tempfile::{tempdir, TempDir};

fn open_store() -> (ClipboardRepository, TempDir) {
    let temp_dir = tempdir().expect("Failed to create temp dir");
    let repo = ClipboardRepository::init(temp_dir.path().join("test.db"), temp_dir.path().join("images"))
        .expect("Failed to create test repository");
    (repo, temp_dir)
}

fn at(seconds: i64) -> ClockReading {
    ClockReading {
        at: Timestamp { seconds, subsec_nanos: 0 },
        epoch_nanos: Some(seconds * 1_000_000_000),
    }
}

fn record(id: u64, content: &str, content_type: ContentType) -> ClipboardRecord {
    ClipboardRecord {
        id,
        content: content.to_string(),
        created_at: Timestamp { seconds: id as i64, subsec_nanos: 0 },
        content_type,
    }
}

/// A store with the texts "one", "two", "Three" and the list that shows it.
fn history() -> (ClipboardRepository, Vec<ClipboardRecord>, TempDir) {
    let (mut repo, dir) = open_store();
    for (seconds, text) in [(1i64, "one"), (2, "two"), (3, "Three")] {
        repo.save_at(at(seconds), text.to_string(), ContentType::Text).expect("Failed to save");
    }
    let records = load_initial_records(Some(&repo), 100);
    (repo, records, dir)
}

fn contents(records: &[ClipboardRecord]) -> Vec<String> {
    records.iter().map(|r| r.content.clone()).collect()
}

#[test]
fn the_list_starts_with_the_newest_of_the_store() {
    let (repo, records, _dir) = history();
    assert_eq!(contents(&records), vec!["Three", "two", "one"]);
    assert_eq!(contents(&load_initial_records(Some(&repo), 2)), vec!["Three", "two"]);
    assert!(load_initial_records(Some(&repo), 0).is_empty());
    assert!(load_initial_records(None, 100).is_empty());
    assert_eq!(copy_records(&records), records);
    assert!(copy_records(&Vec::new()).is_empty());
}

#[test]
fn a_query_shows_what_the_store_finds() {
    let (repo, records, _dir) = history();
    let list = vec![record(9, "only in the list", ContentType::Text)];
    assert_eq!(get_filtered_records(Some(&repo), &list, ""), list);
    assert_eq!(get_filtered_records(None, &list, ""), list);
    assert_eq!(contents(&get_filtered_records(Some(&repo), &list, "t")), vec!["Three", "two"]);
    assert_eq!(contents(&get_filtered_records(Some(&repo), &records, "ONE")), vec!["one"]);
    assert!(get_filtered_records(Some(&repo), &records, "four").is_empty());
    assert!(get_filtered_records(None, &records, "one").is_empty());
}

#[test]
fn a_pick_sends_the_entry_and_deletes_all_but_the_first() {
    let shown = vec![
        record(30, "text", ContentType::Text),
        record(20, "/i/20.png", ContentType::Image),
        record(10, "/f/10.txt", ContentType::FilePath),
    ];
    let first = confirm_record(&shown, 0).expect("there is a first entry");
    assert!(matches!(first.request, Some(CopyRequest::Text(ref text)) if text == "text"));
    assert_eq!(first.delete, None);
    let second = confirm_record(&shown, 1).expect("there is a second entry");
    assert!(matches!(second.request, Some(CopyRequest::Image(ref path)) if path == "/i/20.png"));
    assert_eq!(second.delete, Some(20));
    let third = confirm_record(&shown, 2).expect("there is a third entry");
    assert!(third.request.is_none());
    assert_eq!(third.delete, Some(10));
    assert!(confirm_record(&shown, 3).is_none());
    assert!(confirm_record(&Vec::new(), 0).is_none());
    assert!(copy_request_for("x", ContentType::FilePath).is_none());
    assert!(matches!(copy_request_for("x", ContentType::Text), Some(CopyRequest::Text(ref t)) if t == "x"));
}

#[test]
fn a_deletion_leaves_the_store_and_the_list_without_the_record() {
    let (mut repo, mut records, _dir) = history();
    let deletion = delete_record(&mut repo, &mut records, 2_000_000_000).expect("Failed to delete");
    assert!(deletion.removed);
    assert!(deletion.blobs.is_empty());
    assert_eq!(contents(&records), vec!["Three", "one"]);
    assert_eq!(repo.count().expect("Failed to count"), 2);
    let again = delete_record(&mut repo, &mut records, 2_000_000_000).expect("Failed to delete");
    assert!(!again.removed);
    assert_eq!(contents(&records), vec!["Three", "one"]);
    assert_eq!(repo.count().expect("Failed to count"), 2);
    // a list that shows an id twice loses both
    let mut list = vec![
        record(5, "a", ContentType::Text),
        record(6, "b", ContentType::Text),
        record(5, "c", ContentType::Text),
        record(5, "d", ContentType::Text),
    ];
    delete_record(&mut repo, &mut list, 5).expect("Failed to delete");
    assert_eq!(contents(&list), vec!["b"]);
}

#[test]
fn clearing_empties_the_store_the_list_and_the_last_copy() {
    let (mut repo, mut records, _dir) = history();
    let mut last_copy = LastCopyState::Image(4);
    clear_history(&mut repo, &mut records, &mut last_copy).expect("Failed to clear");
    assert_eq!(repo.count().expect("Failed to count"), 0);
    assert!(records.is_empty());
    assert!(last_copy.is_text(""));
    clear_history(&mut repo, &mut records, &mut last_copy).expect("Failed to clear");
    assert_eq!(repo.count().expect("Failed to count"), 0);
}

#[test]
fn the_selection_stays_inside_the_list() {
    assert_eq!(select_prev(0), 0);
    assert_eq!(select_prev(1), 0);
    assert_eq!(select_prev(7), 6);
    assert_eq!(select_next(0, 0), 0);
    assert_eq!(select_next(0, 1), 0);
    assert_eq!(select_next(0, 2), 1);
    assert_eq!(select_next(1, 2), 1);
    assert_eq!(select_next(5, 2), 5);
    assert_eq!(select_next(usize::MAX, usize::MAX), usize::MAX);
    assert_eq!(clamp_selection(0, 0), 0);
    assert_eq!(clamp_selection(3, 0), 0);
    assert_eq!(clamp_selection(3, 3), 2);
    assert_eq!(clamp_selection(9, 3), 2);
    assert_eq!(clamp_selection(1, 3), 1);
}

#[test]
fn keys_mean_what_the_board_says() {
    assert_eq!(key_action("/", false), KeyAction::FocusSearch);
    assert_eq!(key_action("/", true), KeyAction::FocusSearch);
    assert_eq!(key_action("space", false), KeyAction::TogglePreview);
    assert_eq!(key_action("space", true), KeyAction::Nothing);
    for (key, index) in [("1", 0usize), ("2", 1), ("3", 2), ("4", 3), ("5", 4)] {
        assert_eq!(key_action(key, false), KeyAction::Confirm(index));
        assert_eq!(key_action(key, true), KeyAction::Nothing);
    }
    for key in ["0", "6", "a", "", "enter", "11", " "] {
        assert_eq!(key_action(key, false), KeyAction::Nothing);
    }
}

#[test]
fn a_failed_read_leaves_the_list_empty() {
    let read = vec![record(2, "b", ContentType::Text), record(1, "a", ContentType::Text)];
    assert_eq!(records_or_none(Ok(read.clone())), read);
    assert!(records_or_none(Ok(Vec::new())).is_empty());
    assert!(records_or_none(Err(RepositoryError::Query("disk".to_string()))).is_empty());
    assert!(records_or_none(Err(RepositoryError::Deserialization("junk".to_string()))).is_empty());
}
