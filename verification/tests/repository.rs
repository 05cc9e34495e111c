use ropy::repository::clock::ClockReading;
use ropy::repository::codec::{decode_record, encode_record, record_from_fields};
use ropy::repository::errors::RepositoryError;
use ropy::repository::models::{thumbnail_path, ContentType, Timestamp};
use ropy::repository::order::record_key;
use ropy::repository::repo::{flush_outcome, search_hit};
use ropy::repository::{ClipboardRecord, ClipboardRepository};
use tempfile::{tempdir, TempDir};

fn create_test_repo() -> (ClipboardRepository, TempDir) {
    let temp_dir = tempdir().expect("Failed to create temp dir");
    let db_path = temp_dir.path().join("test.db");
    let repo = ClipboardRepository::init(db_path, temp_dir.path().join("images"))
        .expect("Failed to create test repository");
    (repo, temp_dir)
}

fn at(seconds: i64, subsec_nanos: u32) -> ClockReading {
    ClockReading {
        at: Timestamp { seconds, subsec_nanos },
        epoch_nanos: Some(seconds * 1_000_000_000 + subsec_nanos as i64),
    }
}

#[test]
fn test_save_and_get_text() {
    let (mut repo, _dir) = create_test_repo();

    let record = repo
        .save_text("Hello, World!".to_string())
        .expect("Failed to save");
    assert_eq!(record.content, "Hello, World!");
    assert_eq!(record.content_type, ContentType::Text);

    let retrieved = repo
        .get_by_id(record.id)
        .expect("Failed to get by id")
        .expect("Record not found");
    assert_eq!(retrieved.content, "Hello, World!");
}

#[test]
fn test_get_recent() {
    let (mut repo, _dir) = create_test_repo();

    for i in 1..=5 {
        repo.save_at(at(1_700_000_000 + i, 10), format!("Record {}", i), ContentType::Text)
            .expect("Failed to save");
    }

    let recent = repo.get_recent(3).expect("Failed to get recent");
    assert_eq!(recent.len(), 3);
    assert_eq!(recent[0].content, "Record 5");
    assert_eq!(recent[1].content, "Record 4");
    assert_eq!(recent[2].content, "Record 3");
}

#[test]
fn test_search() {
    let (mut repo, _dir) = create_test_repo();

    repo.save_text("Hello World".to_string())
        .expect("Failed to save");
    repo.save_text("Goodbye World".to_string())
        .expect("Failed to save");
    repo.save_text("Hello Rust".to_string())
        .expect("Failed to save");

    let results = repo.search("hello").expect("Failed to search");
    assert_eq!(results.len(), 2);

    let results = repo.search("world").expect("Failed to search");
    assert_eq!(results.len(), 2);

    let results = repo.search("rust").expect("Failed to search");
    assert_eq!(results.len(), 1);
}

#[test]
fn test_delete() {
    let (mut repo, _dir) = create_test_repo();

    let record = repo
        .save_text("To be deleted".to_string())
        .expect("Failed to save");
    assert_eq!(repo.count().expect("Failed to count"), 1);

    let deleted = repo.delete(record.id).expect("Failed to delete");
    assert!(deleted.removed);
    assert_eq!(repo.count().expect("Failed to count"), 0);

    let deleted_again = repo.delete(record.id).expect("Failed to delete");
    assert!(!deleted_again.removed);
}

#[test]
fn test_clear() {
    let (mut repo, _dir) = create_test_repo();

    repo.save_text("One".to_string()).expect("Failed to save");
    repo.save_text("Two".to_string()).expect("Failed to save");
    repo.save_text("Three".to_string()).expect("Failed to save");
    assert_eq!(repo.count().expect("Failed to count"), 3);

    repo.clear().expect("Failed to clear");
    assert_eq!(repo.count().expect("Failed to count"), 0);
}

#[test]
fn test_cleanup_old_records() {
    let (mut repo, _dir) = create_test_repo();

    for i in 1..=10 {
        repo.save_at(at(1_700_000_000 + i, 0), format!("Record {}", i), ContentType::Text)
            .expect("Failed to save");
    }
    assert_eq!(repo.count().expect("Failed to count"), 10);

    let removed = repo.cleanup_old_records(5).expect("Failed to clean up");
    assert_eq!(removed, 5);
    assert_eq!(repo.count().expect("Failed to count"), 5);

    // Verify that the latest records are retained
    let recent = repo.get_recent(5).expect("Failed to get recent");
    assert_eq!(recent[0].content, "Record 10");
    assert_eq!(recent[4].content, "Record 6");
}

#[test]
fn save_now_takes_its_id_from_the_clock() {
    let (mut repo, _dir) = create_test_repo();
    let first = repo.save("one".to_string(), ContentType::Text).expect("Failed to save");
    let second = repo
        .save_image_from_path("/tmp/two.png".to_string())
        .expect("Failed to save");
    assert!(first.id > 1_600_000_000_000_000_000);
    assert!(second.id >= first.id);
    assert_eq!(second.content_type, ContentType::Image);
    assert_eq!(second.content, "/tmp/two.png");
    assert_eq!(first.created_at.seconds as u64, first.id / 1_000_000_000);
    assert_eq!(first.created_at.subsec_nanos as u64, first.id % 1_000_000_000);
}

#[test]
fn saved_record_reads_back_in_all_fields() {
    let (mut repo, _dir) = create_test_repo();
    let saved = repo
        .save_at(at(1_700_000_000, 123_456_789), "r\u{e9}sum\u{e9} \"x\"\n".to_string(), ContentType::FilePath)
        .expect("Failed to save");
    assert_eq!(saved.id, 1_700_000_000_123_456_789);
    assert_eq!(saved.created_at, Timestamp { seconds: 1_700_000_000, subsec_nanos: 123_456_789 });
    let read = repo.get_by_id(saved.id).expect("Failed to get").expect("Record not found");
    assert_eq!(read, saved);
    assert_eq!(read.id, saved.id);
    assert_eq!(read.content, saved.content);
    assert_eq!(read.created_at, saved.created_at);
    assert_eq!(read.content_type, saved.content_type);
    assert!(repo.get_by_id(saved.id + 1).expect("Failed to get").is_none());
}

#[test]
fn record_ids_follow_the_clock_reading() {
    assert_eq!(at(0, 0).record_id(), 0);
    assert_eq!(at(1, 5).record_id(), 1_000_000_005);
    let unknown = ClockReading { at: Timestamp { seconds: i64::MAX, subsec_nanos: 0 }, epoch_nanos: None };
    assert_eq!(unknown.record_id(), 0);
    let early = ClockReading { at: Timestamp { seconds: -1, subsec_nanos: 999_999_999 }, epoch_nanos: Some(-1) };
    assert_eq!(early.record_id(), u64::MAX);
}

#[test]
fn recent_records_come_newest_first_with_falling_ids() {
    let (mut repo, _dir) = create_test_repo();
    // saved out of order: the log keeps the order of the ids
    for seconds in [5i64, 1, 4, 2, 3, 256, 65_536] {
        repo.save_at(at(seconds, 0), format!("at {}", seconds), ContentType::Text)
            .expect("Failed to save");
    }
    for n in 0..=7usize {
        let recent = repo.get_recent(n).expect("Failed to get recent");
        assert_eq!(recent.len(), n);
        for pair in recent.windows(2) {
            assert!(pair[0].id > pair[1].id);
        }
    }
    let all = repo.get_recent(100).expect("Failed to get recent");
    let contents: Vec<String> = all.iter().map(|r| r.content.clone()).collect();
    assert_eq!(contents, vec!["at 65536", "at 256", "at 5", "at 4", "at 3", "at 2", "at 1"]);
}

#[test]
fn search_leaves_case_aside_and_sees_texts_only() {
    let (mut repo, _dir) = create_test_repo();
    repo.save_at(at(1, 0), "Alpha BETA".to_string(), ContentType::Text).expect("Failed to save");
    repo.save_at(at(2, 0), "/images/beta.png".to_string(), ContentType::Image).expect("Failed to save");
    repo.save_at(at(3, 0), "gamma".to_string(), ContentType::Text).expect("Failed to save");
    repo.save_at(at(4, 0), "more beta".to_string(), ContentType::Text).expect("Failed to save");
    repo.save_at(at(5, 0), "/files/beta.txt".to_string(), ContentType::FilePath).expect("Failed to save");

    let found = repo.search("BeTa").expect("Failed to search");
    let contents: Vec<String> = found.iter().map(|r| r.content.clone()).collect();
    assert_eq!(contents, vec!["more beta", "Alpha BETA"]);
    for record in &found {
        assert_eq!(record.content_type, ContentType::Text);
        assert!(record.content.to_lowercase().contains("beta"));
    }
    assert_eq!(repo.search("delta").expect("Failed to search").len(), 0);
    assert_eq!(repo.search("").expect("Failed to search").len(), 3);
}

#[test]
fn deleting_an_image_names_both_of_its_files() {
    let (mut repo, _dir) = create_test_repo();
    let image = repo
        .save_at(at(7, 0), "/data/ropy/images/7000000000.png".to_string(), ContentType::Image)
        .expect("Failed to save");
    let text = repo.save_at(at(8, 0), "text.png".to_string(), ContentType::Text).expect("Failed to save");
    assert_eq!(repo.count().expect("Failed to count"), 2);

    let deleted = repo.delete(image.id).expect("Failed to delete");
    assert!(deleted.removed);
    assert_eq!(
        deleted.blobs,
        vec!["/data/ropy/images/7000000000.png", "/data/ropy/images/7000000000_thumb.png"]
    );
    assert_eq!(repo.count().expect("Failed to count"), 1);
    assert!(repo.get_by_id(image.id).expect("Failed to get").is_none());
    assert!(repo.get_by_id(text.id).expect("Failed to get").is_some());

    let again = repo.delete(image.id).expect("Failed to delete");
    assert!(!again.removed);
    assert!(again.blobs.is_empty());
    assert_eq!(repo.count().expect("Failed to count"), 1);

    let deleted_text = repo.delete(text.id).expect("Failed to delete");
    assert!(deleted_text.removed);
    assert!(deleted_text.blobs.is_empty());
    assert_eq!(repo.count().expect("Failed to count"), 0);
}

#[test]
fn cleanup_drops_only_the_oldest_and_no_more_than_needed() {
    let (mut repo, _dir) = create_test_repo();
    for (seconds, name) in [(1i64, "a"), (2, "b"), (3, "c"), (4, "d")] {
        repo.save_at(at(seconds, 0), name.to_string(), ContentType::Text).expect("Failed to save");
    }
    assert_eq!(repo.cleanup_old_records(4).expect("Failed to clean up"), 0);
    assert_eq!(repo.cleanup_old_records(9).expect("Failed to clean up"), 0);
    assert_eq!(repo.count().expect("Failed to count"), 4);
    assert_eq!(repo.cleanup_old_records(3).expect("Failed to clean up"), 1);
    let left: Vec<String> =
        repo.get_recent(10).expect("Failed to get recent").iter().map(|r| r.content.clone()).collect();
    assert_eq!(left, vec!["d", "c", "b"]);
    assert_eq!(repo.cleanup_old_records(0).expect("Failed to clean up"), 3);
    assert_eq!(repo.count().expect("Failed to count"), 0);
    assert_eq!(repo.cleanup_old_records(0).expect("Failed to clean up"), 0);
}

#[test]
fn distinct_saves_all_land_with_distinct_rising_ids() {
    let (mut repo, _dir) = create_test_repo();
    let n = 50u32;
    for i in 0..n {
        // the readings come in an order of their own
        let nanos = (i * 37) % n;
        repo.save_at(at(9, nanos), format!("capture {}", nanos), ContentType::Text)
            .expect("Failed to save");
    }
    assert_eq!(repo.count().expect("Failed to count"), n as usize);
    let mut all = repo.get_recent(n as usize).expect("Failed to get recent");
    all.reverse();
    for (i, record) in all.iter().enumerate() {
        assert_eq!(record.id, 9_000_000_000 + i as u64);
        assert_eq!(record.content, format!("capture {}", i));
    }
}

#[test]
fn two_saves_at_one_reading_share_an_id() {
    let (mut repo, _dir) = create_test_repo();
    let first = repo.save_at(at(3, 3), "first".to_string(), ContentType::Text).expect("Failed to save");
    let second = repo.save_at(at(3, 3), "second".to_string(), ContentType::Text).expect("Failed to save");
    assert_eq!(first.id, second.id);
    assert_eq!(repo.count().expect("Failed to count"), 1);
    let read = repo.get_by_id(first.id).expect("Failed to get").expect("Record not found");
    assert_eq!(read.content, "second");
}

#[test]
fn records_survive_closing_and_opening_the_store() {
    let temp_dir = tempdir().expect("Failed to create temp dir");
    let db_path = temp_dir.path().join("test.db");
    let images = temp_dir.path().join("images");
    {
        let mut repo = ClipboardRepository::init(db_path.clone(), images.clone()).expect("Failed to open");
        repo.save_at(at(1, 0), "kept".to_string(), ContentType::Text).expect("Failed to save");
        repo.flush().expect("Failed to flush");
        assert_eq!(repo.images_dir(), &images);
    }
    let repo = ClipboardRepository::init(db_path, images).expect("Failed to open again");
    assert_eq!(repo.count().expect("Failed to count"), 1);
    assert_eq!(repo.get_recent(1).expect("Failed to get recent")[0].content, "kept");
}

#[test]
fn a_record_is_stored_as_a_json_array_of_its_fields() {
    let record = ClipboardRecord {
        id: 42,
        content: "say \"hi\"".to_string(),
        created_at: Timestamp { seconds: -5, subsec_nanos: 7 },
        content_type: ContentType::Image,
    };
    let bytes = encode_record(&record).expect("Failed to encode");
    assert_eq!(String::from_utf8(bytes.clone()).unwrap(), "[42,\"say \\\"hi\\\"\",\"Image\",-5,7]");
    assert_eq!(decode_record(&bytes).expect("Failed to decode"), record);

    let text = decode_record(b"[1, \"a\", \"Text\", 2, 3]").expect("Failed to decode");
    assert_eq!(text.id, 1);
    assert_eq!(text.content, "a");
    assert_eq!(text.content_type, ContentType::Text);
    assert_eq!(text.created_at, Timestamp { seconds: 2, subsec_nanos: 3 });
    let path = decode_record(b"[1,\"a\",\"FilePath\",2,3]").expect("Failed to decode");
    assert_eq!(path.content_type, ContentType::FilePath);
}

#[test]
fn bytes_that_are_no_record_do_not_decode() {
    for bad in [
        &b"not json"[..],
        b"",
        b"[1,\"a\",\"Text\",2]",
        b"[1,\"a\",\"Text\",2,3,4]",
        b"[-1,\"a\",\"Text\",2,3]",
        b"[1,\"a\",\"Sound\",2,3]",
        b"{\"id\":1}",
    ] {
        match decode_record(bad) {
            Err(RepositoryError::Deserialization(_)) => {}
            other => panic!("expected a deserialization error, got {:?}", other),
        }
    }
}

#[test]
fn a_stored_value_that_is_no_record_fails_the_read() {
    let temp_dir = tempdir().expect("Failed to create temp dir");
    let db_path = temp_dir.path().join("test.db");
    {
        let db = sled::open(&db_path).expect("Failed to open");
        let tree = db.open_tree("clipboard_records").expect("Failed to open tree");
        tree.insert(9u64.to_be_bytes(), b"junk".to_vec()).expect("Failed to insert");
        db.flush().expect("Failed to flush");
    }
    let mut repo =
        ClipboardRepository::init(db_path, temp_dir.path().join("images")).expect("Failed to open");
    assert_eq!(repo.count().expect("Failed to count"), 1);
    assert!(matches!(repo.get_by_id(9), Err(RepositoryError::Deserialization(_))));
    assert!(matches!(repo.get_recent(1), Err(RepositoryError::Deserialization(_))));
    assert!(matches!(repo.search("x"), Err(RepositoryError::Deserialization(_))));
    assert!(matches!(repo.delete(9), Err(RepositoryError::Deserialization(_))));
    assert_eq!(repo.count().expect("Failed to count"), 1);
    assert_eq!(repo.get_recent(0).expect("Failed to get recent").len(), 0);
    assert_eq!(repo.cleanup_old_records(0).expect("Failed to clean up"), 1);
    assert_eq!(repo.count().expect("Failed to count"), 0);
}

#[test]
fn a_store_that_cannot_be_opened_says_so() {
    let temp_dir = tempdir().expect("Failed to create temp dir");
    let plain = tempfile::NamedTempFile::new_in(temp_dir.path()).expect("Failed to create a file");
    match ClipboardRepository::init(plain.path().to_path_buf(), temp_dir.path().join("images")) {
        Err(RepositoryError::DatabaseOpen(_)) => {}
        Ok(_) => panic!("opened a plain file as a store"),
        Err(other) => panic!("expected a database open error, got {:?}", other),
    }
    assert!(matches!(ClipboardRepository::new_in(None), Err(RepositoryError::DataDirNotFound)));
    let repo = ClipboardRepository::new_in(Some(temp_dir.path().to_path_buf())).expect("Failed to open");
    assert_eq!(repo.images_dir(), &temp_dir.path().join("ropy").join("images"));
    assert!(temp_dir.path().join("ropy").join("clipboard.db").exists());
}

#[test]
fn keys_are_the_bytes_of_the_id_most_significant_first() {
    assert_eq!(record_key(0), vec![0, 0, 0, 0, 0, 0, 0, 0]);
    assert_eq!(record_key(1), vec![0, 0, 0, 0, 0, 0, 0, 1]);
    assert_eq!(record_key(0x0102_0304_0506_0708), vec![1, 2, 3, 4, 5, 6, 7, 8]);
    assert_eq!(record_key(u64::MAX), vec![255; 8]);
    assert_eq!(record_key(1_700_000_000_123_456_789), 1_700_000_000_123_456_789u64.to_be_bytes().to_vec());
    assert!(record_key(255) < record_key(256));
}

#[test]
fn thumbnails_stand_beside_their_images() {
    assert_eq!(thumbnail_path("/a/b/17.png"), "/a/b/17_thumb.png");
    assert_eq!(thumbnail_path("/shots.png/17.png"), "/shots.png/17_thumb.png");
    assert_eq!(thumbnail_path("a.png.png"), "a.png_thumb.png");
    assert_eq!(thumbnail_path(".png"), "_thumb.png");
    assert_eq!(thumbnail_path("17.jpg"), "17.jpg_thumb.png");
    assert_eq!(thumbnail_path("17.PNG"), "17.PNG_thumb.png");
    assert_eq!(thumbnail_path("png"), "png_thumb.png");
    assert_eq!(thumbnail_path(""), "_thumb.png");
    assert_eq!(thumbnail_path("/é/文.png"), "/é/文_thumb.png");
    let image = ClipboardRecord {
        id: 1,
        content: "x.png".to_string(),
        created_at: Timestamp { seconds: 0, subsec_nanos: 0 },
        content_type: ContentType::Image,
    };
    assert_eq!(image.blob_paths(), vec!["x.png", "x_thumb.png"]);
    let mut text = image.clone();
    text.content_type = ContentType::Text;
    assert!(text.blob_paths().is_empty());
}

#[test]
fn content_types_have_their_names() {
    for (content_type, name) in
        [(ContentType::Text, "Text"), (ContentType::Image, "Image"), (ContentType::FilePath, "FilePath")]
    {
        assert_eq!(content_type.name(), name);
        assert_eq!(ContentType::from_name(name), Some(content_type));
    }
    assert_eq!(ContentType::from_name("text"), None);
    assert_eq!(ContentType::from_name(""), None);
}

#[test]
fn repository_errors_say_what_failed() {
    assert_eq!(RepositoryError::DataDirNotFound.message(), "Data directory not found");
    assert_eq!(RepositoryError::DatabaseOpen("x".to_string()).message(), "Database open failed: x");
    assert_eq!(RepositoryError::TreeOpen("x".to_string()).message(), "Tree open failed: x");
    assert_eq!(RepositoryError::Serialization("x".to_string()).message(), "Serialization error: x");
    assert_eq!(RepositoryError::Deserialization("x".to_string()).message(), "Deserialization error: x");
    assert_eq!(RepositoryError::Insert("x".to_string()).message(), "Insert error: x");
    assert_eq!(RepositoryError::Query("x".to_string()).message(), "Query error: x");
    assert_eq!(RepositoryError::Delete("x".to_string()).message(), "Delete error: x");
    assert_eq!(RepositoryError::Flush("x".to_string()).message(), "Flush error: x");
}

#[test]
fn fields_make_a_record_where_the_content_type_has_a_name() {
    let record = record_from_fields(7, "c".to_string(), "Image", -1, 2).expect("the fields are fine");
    assert_eq!(record.id, 7);
    assert_eq!(record.content, "c");
    assert_eq!(record.content_type, ContentType::Image);
    assert_eq!(record.created_at, Timestamp { seconds: -1, subsec_nanos: 2 });
    match record_from_fields(7, "c".to_string(), "image", -1, 2) {
        Err(RepositoryError::Deserialization(words)) => assert_eq!(words, "unknown content type: image"),
        other => panic!("expected a deserialization error, got {:?}", other),
    }
}

#[test]
fn a_search_hits_texts_that_hold_the_keyword() {
    assert!(search_hit(ContentType::Text, "hello world", "lo w"));
    assert!(search_hit(ContentType::Text, "hello", ""));
    assert!(search_hit(ContentType::Text, "", ""));
    assert!(!search_hit(ContentType::Text, "hello", "world"));
    assert!(!search_hit(ContentType::Text, "hello", "Hello"));
    assert!(!search_hit(ContentType::Image, "hello", "hello"));
    assert!(!search_hit(ContentType::FilePath, "hello", "hello"));
}

#[test]
fn a_flush_comes_to_what_the_log_answered() {
    assert!(flush_outcome(Ok(())).is_ok());
    match flush_outcome(Err(sled::Error::Unsupported("read only".to_string()))) {
        Err(RepositoryError::Flush(words)) => assert_eq!(words, "Unsupported: read only"),
        other => panic!("expected a flush error, got {:?}", other),
    }
    let (repo, _dir) = create_test_repo();
    assert!(repo.flush().is_ok());
}

#[test]
fn the_image_directory_is_the_one_given() {
    let temp_dir = tempdir().expect("Failed to create temp dir");
    let images = temp_dir.path().join("pictures");
    let mut repo = ClipboardRepository::init(temp_dir.path().join("test.db"), images.clone())
        .expect("Failed to open");
    assert_eq!(repo.images_dir(), &images);
    repo.save_at(at(1, 0), "a".to_string(), ContentType::Text).expect("Failed to save");
    repo.clear().expect("Failed to clear");
    assert_eq!(repo.images_dir(), &images);
}

#[test]
fn the_count_walks_the_whole_log() {
    let (mut repo, _dir) = create_test_repo();
    assert_eq!(repo.count().expect("Failed to count"), 0);
    for seconds in 1..=37i64 {
        repo.save_at(at(seconds, 0), "x".to_string(), ContentType::Text).expect("Failed to save");
        assert_eq!(repo.count().expect("Failed to count"), seconds as usize);
    }
    repo.delete(5_000_000_000).expect("Failed to delete");
    assert_eq!(repo.count().expect("Failed to count"), 36);
}

#[test]
fn a_saved_record_names_the_moment_of_its_making() {
    let (mut repo, _dir) = create_test_repo();
    let record = repo.save_text("now".to_string()).expect("Failed to save");
    assert!(record.created_at.subsec_nanos < 1_000_000_000);
    assert_eq!(
        record.id,
        record.created_at.seconds as u64 * 1_000_000_000 + record.created_at.subsec_nanos as u64
    );
    let now = ClockReading::now();
    assert!(now.at.subsec_nanos < 1_000_000_000);
    assert_eq!(now.epoch_nanos, Some(now.at.seconds * 1_000_000_000 + now.at.subsec_nanos as i64));
    assert!(now.record_id() > record.id);
}

#[test]
fn every_record_has_a_stored_form() {
    for content in ["", "\u{0}\u{1f}\"\\/", "\u{2028}\u{fffd}\u{10ffff}", "a\nb\tc"] {
        let record = ClipboardRecord {
            id: u64::MAX,
            content: content.to_string(),
            created_at: Timestamp { seconds: i64::MIN, subsec_nanos: u32::MAX },
            content_type: ContentType::FilePath,
        };
        let bytes = encode_record(&record).expect("every record has a stored form");
        assert_eq!(decode_record(&bytes).expect("Failed to decode"), record);
    }
}
