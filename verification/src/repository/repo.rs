//! Clipboard repository for storing and retrieving clipboard records.

use super::clock::{id_at, is_clock_reading, read_clock, reading_at, ClockReading};
use super::codec::{decode_record, encode_record, record_of, stored_form};
use super::errors::RepositoryError;
use super::laws::{
    ids_fall, lemma_delete_removes_one, lemma_eviction_keeps_newest, lemma_save_keeps_order,
    lemma_search_finds_only_matches,
};
use super::models::{ClipboardRecord, ContentType, RecordView, Timestamp};
use super::models::{blob_files, texts, views};
use super::order::{
    ascending, has_key, key_bytes, lemma_entry_after, lemma_entry_before, lemma_key_order,
    lemma_no_entry_after, lemma_no_entry_before,
    lemma_rank, lemma_value_under, lemma_without_first, lex_lt, newest, record_key, value_under,
    with_entry, without_key, Entries,
};
use super::tree::{
    db_flush, open_db, open_tree, sled_error_text, tree_clear, tree_entries, tree_first, tree_get,
    tree_get_gt, tree_get_lt, tree_insert, tree_last, tree_remove,
};
use crate::paths::{join_path, local_data_dir};
use crate::text::{contains, lowercase, occurs_in, to_lowercase};
use std::path::PathBuf;
use vstd::prelude::*;
use vstd::string::StringExecFns;

verus! {

/// The history store: an ordered log of records on disk, each under the key
/// of its id, so that the log walks its records from the oldest to the newest.
pub struct ClipboardRepository {
    db: sled::Db,
    records_tree: sled::Tree,
    images_dir: PathBuf,
}

/// What a deletion did: whether a record went, and the files that belonged to
/// it and are to go with it.
#[derive(Debug)]
pub struct Deletion {
    /// A record stood under the id and is gone.
    pub removed: bool,
    /// The files of the record that is gone: for an image its file and its
    /// thumbnail, for anything else none.
    pub blobs: Vec<String>,
}

/// The records that the values of `es` stand for, in the order of `es`;
/// `None` where some value stands for no record.
pub open spec fn records_in(es: Entries) -> Option<Seq<RecordView>> {
    if forall|i: int| 0 <= i < es.len() ==> record_of((#[trigger] es[i]).1) is Some {
        Some(Seq::new(es.len(), |i: int| record_of(es[i].1).unwrap()))
    } else {
        None
    }
}

/// Every value of `s` stands for a record, and stands under the key of that
/// record's id.
pub open spec fn well_keyed(s: Entries) -> bool {
    forall|i: int|
        0 <= i < s.len() ==> record_of((#[trigger] s[i]).1) is Some && s[i].0 == key_bytes(
            record_of(s[i].1).unwrap().id,
        )
}

/// A search for `keyword` finds this record: it is a text, and its content
/// holds the keyword where the case of letters is left aside.
pub open spec fn matches_keyword(record: RecordView, keyword: Seq<char>) -> bool {
    record.content_type == ContentType::Text && occurs_in(
        lowercase(keyword),
        lowercase(record.content),
    )
}

/// What a flush comes to, from what the log underneath answered: done where
/// the log flushed, and a flush error with the words of the log where it
/// failed.
pub fn flush_outcome(flushed: Result<(), sled::Error>) -> (r: Result<(), RepositoryError>)
    ensures
        r is Ok <==> flushed is Ok,
        r matches Err(e) ==> e is Flush,
{
    match flushed {
        Ok(()) => Ok(()),
        Err(e) => Err(RepositoryError::Flush(sled_error_text(&e))),
    }
}

/// Decides whether a search finds a record, from the record's content type
/// and the lower-case forms of its content and of the keyword: only texts
/// are searched, and a text is found where it holds the keyword.
pub fn search_hit(content_type: ContentType, content_lower: &str, keyword_lower: &str) -> (hit:
    bool)
    ensures
        hit == (content_type == ContentType::Text && occurs_in(keyword_lower@, content_lower@)),
{
    // Only search in text records
    content_type == ContentType::Text && contains(content_lower, keyword_lower)
}

/// The test that a search for `keyword` finds a record.
pub open spec fn found_by(keyword: Seq<char>) -> spec_fn(RecordView) -> bool {
    |record: RecordView| matches_keyword(record, keyword)
}

/// How many records a store of `total` holds beyond `keep`.
pub open spec fn excess(total: nat, keep: nat) -> nat {
    if total > keep {
        (total - keep) as nat
    } else {
        0
    }
}

/// The record that is made of a content at a reading of the clock.
pub open spec fn record_at(now: ClockReading, content: Seq<char>, content_type: ContentType) -> RecordView {
    RecordView { id: id_at(now), content, created_at: now.at, content_type }
}

/// What saving `record` comes to. `store` is the log before it and `left`
/// the log after it.
///
/// Where it succeeds, the record comes back, it reads back from its stored
/// form, and the log holds that form under the key of the record's id, in
/// place of what stood there. It fails only where the log underneath fails
/// to take the entry, and then the log is as it was, or holds the entry all
/// the same: the log may have taken an entry that it reports as failed.
pub open spec fn save_outcome(
    store: Entries,
    record: RecordView,
    left: Entries,
    r: Result<ClipboardRecord, RepositoryError>,
) -> bool {
    match r {
        Ok(saved) => {
            &&& saved@ == record
            &&& record_of(stored_form(record)) == Some(record)
            &&& left == with_entry(store, key_bytes(record.id), stored_form(record))
        },
        Err(e) => {
            &&& e is Insert
            &&& left == store || left == with_entry(
                store,
                key_bytes(record.id),
                stored_form(record),
            )
        },
    }
}

/// What saving a content now comes to: what saving the record comes to that
/// is made of it at some reading of the clock. On success the record names
/// the reading: its id is the id of the moment at which it was made.
pub open spec fn save_now_outcome(
    store: Entries,
    content: Seq<char>,
    content_type: ContentType,
    left: Entries,
    r: Result<ClipboardRecord, RepositoryError>,
) -> bool {
    &&& exists|at: Timestamp|
        at.subsec_nanos < 1_000_000_000 && save_outcome(
            store,
            record_at(#[trigger] reading_at(at), content, content_type),
            left,
            r,
        )
    &&& r matches Ok(saved) ==> {
        &&& saved.created_at.subsec_nanos < 1_000_000_000
        &&& save_outcome(
            store,
            record_at(reading_at(saved.created_at), content, content_type),
            left,
            r,
        )
    }
}

impl View for ClipboardRepository {
    type V = Entries;

    /// What the log holds, from the oldest to the newest.
    closed spec fn view(&self) -> Entries {
        tree_entries(self.records_tree)
    }
}

impl ClipboardRepository {
    /// The log is in order: its keys rise from each entry to the next.
    /// Every repository that this library hands out is, and stays so.
    pub open spec fn wf(&self) -> bool {
        ascending(self@)
    }

    /// The directory of images that the repository was opened with. Nothing
    /// that is done to the records changes it.
    pub closed spec fn images_path(&self) -> PathBuf {
        self.images_dir
    }

    /// Create a new repository instance in the user's local data directory:
    /// the database in `ropy/clipboard.db`, the images in `ropy/images`.
    pub fn new() -> (r: Result<Self, RepositoryError>)
        ensures
            match r {
                Ok(repo) => repo.wf(),
                Err(e) => e is DataDirNotFound || e is DatabaseOpen || e is TreeOpen,
            },
    {
        Self::new_in(local_data_dir())
    }

    /// Create a repository instance under the given data directory. Without
    /// a data directory there is no repository.
    pub fn new_in(data_dir: Option<PathBuf>) -> (r: Result<Self, RepositoryError>)
        ensures
            match r {
                Ok(repo) => data_dir is Some && repo.wf(),
                Err(e) => if data_dir is None {
                    e is DataDirNotFound
                } else {
                    e is DatabaseOpen || e is TreeOpen
                },
            },
    {
        match data_dir {
            None => Err(RepositoryError::DataDirNotFound),
            Some(dir) => {
                let home = join_path(&dir, "ropy");
                let db_path = join_path(&home, "clipboard.db");
                let images_dir = join_path(&home, "images");
                Self::init(db_path, images_dir)
            },
        }
    }

    /// Initialize repository with specific paths
    pub fn init(db_path: PathBuf, images_dir: PathBuf) -> (r: Result<Self, RepositoryError>)
        ensures
            match r {
                Ok(repo) => repo.wf() && repo.images_path() == images_dir,
                Err(e) => e is DatabaseOpen || e is TreeOpen,
            },
    {
        let db = match open_db(&db_path) {
            Ok(db) => db,
            Err(e) => {
                return Err(RepositoryError::DatabaseOpen(sled_error_text(&e)));
            },
        };
        let records_tree = match open_tree(&db, "clipboard_records") {
            Ok(tree) => tree,
            Err(e) => {
                return Err(RepositoryError::TreeOpen(sled_error_text(&e)));
            },
        };
        Ok(ClipboardRepository { db, records_tree, images_dir })
    }

    /// The directory in which the images of image records are kept: the one
    /// that the repository was opened with.
    pub fn images_dir(&self) -> (dir: &PathBuf)
        ensures
            *dir == self.images_path(),
    {
        &self.images_dir
    }

    /// Save a clipboard record made at the given reading of the clock.
    ///
    /// The record gets the id of the reading and goes under the key of that
    /// id, in place of what stood there.
    pub fn save_at(&mut self, now: ClockReading, content: String, content_type: ContentType) -> (r:
        Result<ClipboardRecord, RepositoryError>)
        requires
            old(self).wf(),
        ensures
            final(self).wf(),
            final(self).images_path() == old(self).images_path(),
            well_keyed(old(self)@) ==> well_keyed(final(self)@),
            save_outcome(old(self)@, record_at(now, content@, content_type), final(self)@, r),
    {
        let id = now.record_id();
        let record = ClipboardRecord { id, content, created_at: now.at, content_type };
        let key = record_key(id);
        let value = match encode_record(&record) {
            Ok(value) => value,
            Err(e) => {
                return Err(e);
            },
        };
        proof {
            lemma_save_keeps_order(self@, record@);
        }
        match tree_insert(&mut self.records_tree, key.as_slice(), value) {
            Ok(()) => Ok(record),
            Err(e) => Err(RepositoryError::Insert(sled_error_text(&e))),
        }
    }

    /// Save a clipboard record
    ///
    /// Uses a timestamp as the key to ensure chronological storage
    pub fn save(&mut self, content: String, content_type: ContentType) -> (r: Result<
        ClipboardRecord,
        RepositoryError,
    >)
        requires
            old(self).wf(),
        ensures
            final(self).wf(),
            final(self).images_path() == old(self).images_path(),
            well_keyed(old(self)@) ==> well_keyed(final(self)@),
            save_now_outcome(old(self)@, content@, content_type, final(self)@, r),
    {
        let now = read_clock();
        let r = self.save_at(now, content, content_type);
        proof {
            assert(now == reading_at(now.at));
            assert(save_outcome(
                old(self)@,
                record_at(reading_at(now.at), content@, content_type),
                self@,
                r,
            ));
        }
        r
    }

    /// Save image record from existing file path
    pub fn save_image_from_path(&mut self, file_path: String) -> (r: Result<
        ClipboardRecord,
        RepositoryError,
    >)
        requires
            old(self).wf(),
        ensures
            final(self).wf(),
            final(self).images_path() == old(self).images_path(),
            well_keyed(old(self)@) ==> well_keyed(final(self)@),
            save_now_outcome(old(self)@, file_path@, ContentType::Image, final(self)@, r),
    {
        self.save(file_path, ContentType::Image)
    }

    /// Save text content (convenience method)
    pub fn save_text(&mut self, content: String) -> (r: Result<ClipboardRecord, RepositoryError>)
        requires
            old(self).wf(),
        ensures
            final(self).wf(),
            final(self).images_path() == old(self).images_path(),
            well_keyed(old(self)@) ==> well_keyed(final(self)@),
            save_now_outcome(old(self)@, content@, ContentType::Text, final(self)@, r),
    {
        self.save(content, ContentType::Text)
    }

    /// Get a record by ID
    pub fn get_by_id(&self, id: u64) -> (r: Result<Option<ClipboardRecord>, RepositoryError>)
        requires
            self.wf(),
        ensures
            match r {
                Ok(found) => match value_under(self@, key_bytes(id)) {
                    Some(bytes) => found is Some && record_of(bytes) == Some(found.unwrap()@),
                    None => found is None,
                },
                Err(e) => {
                    ||| e is Query
                    ||| {
                        &&& e is Deserialization
                        &&& value_under(self@, key_bytes(id)) matches Some(bytes)
                        &&& record_of(bytes) is None
                    }
                },
            },
    {
        let key = record_key(id);
        match tree_get(&self.records_tree, key.as_slice()) {
            Ok(Some(value)) => {
                proof {
                    lemma_value_under(self@, key@, value@);
                }
                match decode_record(value.as_slice()) {
                    Ok(record) => Ok(Some(record)),
                    Err(e) => Err(e),
                }
            },
            Ok(None) => Ok(None),
            Err(e) => Err(RepositoryError::Query(sled_error_text(&e))),
        }
    }

    /// Get the total number of records
    ///
    /// The log is walked from its first entry to its last, and each step of
    /// the walk can fail.
    pub fn count(&self) -> (r: Result<usize, RepositoryError>)
        requires
            self.wf(),
        ensures
            match r {
                Ok(n) => n == self@.len(),
                Err(e) => e is Query,
            },
    {
        let ghost s = self@;
        let mut n: usize = 0;
        let mut cursor = match tree_first(&self.records_tree) {
            Ok(cursor) => cursor,
            Err(e) => {
                return Err(RepositoryError::Query(sled_error_text(&e)));
            },
        };
        loop
            invariant
                s == self@,
                ascending(s),
                n <= s.len(),
                match cursor {
                    Some(entry) => n < s.len() && (entry.0@, entry.1@) == s[n as int],
                    None => n == s.len(),
                },
            decreases s.len() - n,
        {
            let (key, _) = match cursor {
                Some(entry) => entry,
                None => {
                    return Ok(n);
                },
            };
            if n == usize::MAX {
                return Err(
                    RepositoryError::Query(String::from_str("more records than can be counted")),
                );
            }
            let ghost pos = n as int;
            n += 1;
            cursor = match tree_get_gt(&self.records_tree, key.as_slice()) {
                Ok(cursor) => cursor,
                Err(e) => {
                    return Err(RepositoryError::Query(sled_error_text(&e)));
                },
            };
            proof {
                if cursor is Some {
                    lemma_entry_after(s, pos, (cursor.unwrap().0@, cursor.unwrap().1@));
                } else {
                    lemma_no_entry_after(s, pos);
                }
            }
        }
    }

    /// Flush data to disk
    ///
    /// Whether the disk takes the data is the disk's to say; what is made of
    /// its answer, [`flush_outcome`] says.
    pub fn flush(&self) -> (r: Result<(), RepositoryError>)
        ensures
            r matches Err(e) ==> e is Flush,
    {
        flush_outcome(db_flush(&self.db))
    }
    /// Get recent N records (in reverse chronological order)
    ///
    /// Where the log is well keyed, the ids fall strictly from each record
    /// to the next.
    pub fn get_recent(&self, limit: usize) -> (r: Result<Vec<ClipboardRecord>, RepositoryError>)
        requires
            self.wf(),
        ensures
            match r {
                Ok(records) => {
                    &&& records_in(newest(self@, limit as nat)) == Some(views(records@))
                    &&& well_keyed(self@) ==> forall|i: int, j: int|
                        0 <= i < j < records.len() ==> records[i].id > records[j].id
                },
                Err(e) => e is Query || (e is Deserialization && records_in(
                    newest(self@, limit as nat),
                ) is None),
            },
            limit == 0 ==> r is Ok,
            r matches Ok(records) ==> records.len() == if limit <= self@.len() {
                limit as nat
            } else {
                self@.len()
            },
    {
        let mut records: Vec<ClipboardRecord> = Vec::new();
        let ghost s = self@;
        let ghost wanted = newest(s, limit as nat);
        if limit == 0 {
            assert(views(records@) =~= Seq::new(0, |i: int| record_of(wanted[i].1).unwrap()));
            return Ok(records);
        }
        let mut cursor = match tree_last(&self.records_tree) {
            Ok(cursor) => cursor,
            Err(e) => {
                return Err(RepositoryError::Query(sled_error_text(&e)));
            },
        };
        loop
            invariant
                s == self@,
                ascending(s),
                wanted == newest(s, limit as nat),
                records.len() < limit,
                records.len() <= s.len(),
                forall|i: int|
                    0 <= i < records.len() ==> record_of(s[s.len() - 1 - i].1) == Some(
                        #[trigger] records[i]@,
                    ),
                match cursor {
                    Some(entry) => records.len() < s.len() && (entry.0@, entry.1@) == s[s.len() - 1
                        - records.len()],
                    None => records.len() == s.len(),
                },
            decreases limit - records.len(),
        {
            let (key, value) = match cursor {
                Some(entry) => entry,
                None => {
                    proof {
                        lemma_newest_read(s, limit as nat, views(records@));
                        lemma_read_ids_fall(s, limit as nat, records@);
                    }
                    return Ok(records);
                },
            };
            let ghost pos = s.len() - 1 - records.len();
            let record = match decode_record(value.as_slice()) {
                Ok(record) => record,
                Err(e) => {
                    assert(record_of(wanted[records.len() as int].1) is None);
                    return Err(e);
                },
            };
            records.push(record);
            if records.len() == limit {
                proof {
                    lemma_newest_read(s, limit as nat, views(records@));
                    lemma_read_ids_fall(s, limit as nat, records@);
                }
                return Ok(records);
            }
            cursor = match tree_get_lt(&self.records_tree, key.as_slice()) {
                Ok(cursor) => cursor,
                Err(e) => {
                    return Err(RepositoryError::Query(sled_error_text(&e)));
                },
            };
            proof {
                if cursor is Some {
                    lemma_entry_before(s, pos, (cursor.unwrap().0@, cursor.unwrap().1@));
                } else {
                    lemma_no_entry_before(s, pos);
                }
            }
        }
    }

    /// Search records by keyword
    ///
    /// The records found are the text records whose content holds the
    /// keyword, the case of letters left aside, from the newest to the oldest.
    pub fn search(&self, keyword: &str) -> (r: Result<Vec<ClipboardRecord>, RepositoryError>)
        requires
            self.wf(),
        ensures
            match r {
                Ok(records) => {
                    &&& records_in(newest(self@, self@.len())) matches Some(all)
                    &&& views(records@) == all.filter(found_by(keyword@))
                    &&& forall|i: int|
                        0 <= i < records.len() ==> matches_keyword(
                            (#[trigger] records[i])@,
                            keyword@,
                        )
                    &&& well_keyed(self@) ==> forall|i: int, j: int|
                        0 <= i < j < records.len() ==> records[i].id > records[j].id
                },
                Err(e) => e is Query || (e is Deserialization && records_in(
                    newest(self@, self@.len()),
                ) is None),
            },
    {
        let keyword_lower = to_lowercase(keyword);
        let mut records: Vec<ClipboardRecord> = Vec::new();
        let ghost s = self@;
        let ghost wanted = newest(s, s.len());
        let ghost mut seen: Seq<RecordView> = Seq::empty();
        let mut cursor = match tree_last(&self.records_tree) {
            Ok(cursor) => cursor,
            Err(e) => {
                return Err(RepositoryError::Query(sled_error_text(&e)));
            },
        };
        proof {
            reveal(Seq::filter);
            assert(views(records@) =~= seen.filter(found_by(keyword@)));
        }
        loop
            invariant
                s == self@,
                ascending(s),
                wanted == newest(s, s.len()),
                keyword_lower@ == lowercase(keyword@),
                seen.len() <= s.len(),
                forall|i: int|
                    0 <= i < seen.len() ==> record_of(s[s.len() - 1 - i].1) == Some(
                        #[trigger] seen[i],
                    ),
                views(records@) == seen.filter(found_by(keyword@)),
                match cursor {
                    Some(entry) => seen.len() < s.len() && (entry.0@, entry.1@) == s[s.len() - 1
                        - seen.len()],
                    None => seen.len() == s.len(),
                },
            decreases s.len() - seen.len(),
        {
            let (key, value) = match cursor {
                Some(entry) => entry,
                None => {
                    proof {
                        lemma_newest_read(s, s.len(), seen);
                        lemma_search_finds_only_matches(seen, keyword@);
                        let found = views(records@);
                        assert forall|i: int| 0 <= i < records.len() implies matches_keyword(
                            (#[trigger] records[i])@,
                            keyword@,
                        ) by {
                            assert(found[i] == records[i]@);
                        }
                        if well_keyed(s) {
                            lemma_newest_ids_fall(s, s.len());
                            assert(ids_fall(found));
                            assert forall|i: int, j: int|
                                0 <= i < j < records.len() implies records[i].id > records[j].id by {
                                assert(found[i] == records[i]@ && found[j] == records[j]@);
                            }
                        }
                    }
                    return Ok(records);
                },
            };
            let ghost pos = s.len() - 1 - seen.len();
            let record = match decode_record(value.as_slice()) {
                Ok(record) => record,
                Err(e) => {
                    assert(record_of(wanted[seen.len() as int].1) is None);
                    return Err(e);
                },
            };
            let content_lower = to_lowercase(record.content.as_str());
            let hit = search_hit(
                record.content_type,
                content_lower.as_str(),
                keyword_lower.as_str(),
            );
            proof {
                seen.lemma_filter_push(record@, found_by(keyword@));
                assert(hit == found_by(keyword@)(record@));
                seen = seen.push(record@);
            }
            if hit {
                let ghost before = views(records@);
                records.push(record);
                assert(views(records@) =~= before.push(record@));
            }
            cursor = match tree_get_lt(&self.records_tree, key.as_slice()) {
                Ok(cursor) => cursor,
                Err(e) => {
                    return Err(RepositoryError::Query(sled_error_text(&e)));
                },
            };
            proof {
                if cursor is Some {
                    lemma_entry_before(s, pos, (cursor.unwrap().0@, cursor.unwrap().1@));
                } else {
                    lemma_no_entry_before(s, pos);
                }
            }
        }
    }

    /// Delete a record
    ///
    /// The answer says whether a record went, and names the files that
    /// belonged to it: the caller removes them.
    pub fn delete(&mut self, id: u64) -> (r: Result<Deletion, RepositoryError>)
        requires
            old(self).wf(),
        ensures
            final(self).wf(),
            final(self).images_path() == old(self).images_path(),
            well_keyed(old(self)@) ==> well_keyed(final(self)@),
            match r {
                Ok(deletion) => {
                    &&& final(self)@ == without_key(old(self)@, key_bytes(id))
                    &&& deletion.removed == has_key(old(self)@, key_bytes(id))
                    &&& match value_under(old(self)@, key_bytes(id)) {
                        Some(bytes) => record_of(bytes) matches Some(record) && texts(
                            deletion.blobs@,
                        ) == blob_files(record),
                        None => deletion.blobs@.len() == 0,
                    }
                },
                Err(e) => {
                    ||| e is Query && final(self)@ == old(self)@
                    ||| {
                        &&& e is Deserialization
                        &&& final(self)@ == old(self)@
                        &&& value_under(old(self)@, key_bytes(id)) matches Some(bytes)
                        &&& record_of(bytes) is None
                    }
                    ||| e is Delete && final(self)@ == old(self)@
                    ||| e is Delete && final(self)@ == without_key(old(self)@, key_bytes(id))
                },
            },
    {
        // If it's an image record, its image file and thumbnail go with it
        let blobs = match self.get_by_id(id) {
            Ok(Some(record)) => record.blob_paths(),
            Ok(None) => Vec::new(),
            Err(e) => {
                return Err(e);
            },
        };
        let key = record_key(id);
        proof {
            lemma_rank(self@, key@);
            lemma_delete_removes_one(self@, id, id);
        }
        match tree_remove(&mut self.records_tree, key.as_slice()) {
            Ok(gone) => Ok(Deletion { removed: gone.is_some(), blobs }),
            Err(e) => Err(RepositoryError::Delete(sled_error_text(&e))),
        }
    }

    /// Clear all records
    ///
    /// The image files are not touched here: the caller removes the
    /// directory of images.
    pub fn clear(&mut self) -> (r: Result<(), RepositoryError>)
        requires
            old(self).wf(),
        ensures
            final(self).wf(),
            final(self).images_path() == old(self).images_path(),
            well_keyed(old(self)@) ==> well_keyed(final(self)@),
            match r {
                Ok(()) => final(self)@ == Seq::<(Seq<u8>, Seq<u8>)>::empty(),
                Err(e) => e is Delete && forall|i: int|
                    0 <= i < final(self)@.len() ==> old(self)@.contains(#[trigger] final(self)@[i]),
            },
    {
        let ghost before = self@;
        let result = tree_clear(&mut self.records_tree);
        proof {
            if well_keyed(before) {
                assert forall|i: int| 0 <= i < self@.len() implies record_of((#[trigger] self@[i]).1)
                    is Some && self@[i].0 == key_bytes(record_of(self@[i].1).unwrap().id) by {
                    assert(before.contains(self@[i]));
                    let j = choose|j: int| 0 <= j < before.len() && before[j] == self@[i];
                    assert(record_of(before[j].1) is Some);
                }
            }
        }
        match result {
            Ok(()) => {
                assert(self@ =~= Seq::<(Seq<u8>, Seq<u8>)>::empty());
                Ok(())
            },
            Err(e) => Err(RepositoryError::Delete(sled_error_text(&e))),
        }
    }

    /// Clean up old records, keeping the most recent N records
    ///
    /// The records are counted first, by a walk of the log. Then only the
    /// oldest records go, and no more of them than the store holds beyond
    /// `keep_count`; where a step fails, those that went before it are gone,
    /// and where the count fails, none.
    pub fn cleanup_old_records(&mut self, keep_count: usize) -> (r: Result<usize, RepositoryError>)
        requires
            old(self).wf(),
        ensures
            final(self).wf(),
            final(self).images_path() == old(self).images_path(),
            well_keyed(old(self)@) ==> well_keyed(final(self)@),
            match r {
                Ok(removed) => {
                    &&& removed == excess(old(self)@.len(), keep_count as nat)
                    &&& final(self)@ == old(self)@.skip(removed as int)
                },
                Err(e) => {
                    &&& e is Query || e is Delete
                    &&& exists|gone: int|
                        0 <= gone <= excess(old(self)@.len(), keep_count as nat) && final(self)@
                            == #[trigger] old(self)@.skip(gone)
                },
            },
    {
        let ghost before = self@;
        let total = match self.count() {
            Ok(total) => total,
            Err(e) => {
                assert(self@ =~= before.skip(0));
                return Err(e);
            },
        };
        if total <= keep_count {
            assert(self@ =~= before.skip(0));
            return Ok(0);
        }
        let to_remove = total - keep_count;
        let mut removed: usize = 0;
        assert(self@ =~= before.skip(0));
        while removed < to_remove
            invariant
                self.wf(),
                self.images_path() == old(self).images_path(),
                well_keyed(before) ==> well_keyed(self@),
                before == old(self)@,
                ascending(before),
                removed <= to_remove,
                to_remove == excess(before.len(), keep_count as nat),
                to_remove <= before.len(),
                self@ == before.skip(removed as int),
            decreases to_remove - removed,
        {
            let ghost current = self@;
            let first = match tree_first(&self.records_tree) {
                Ok(first) => first,
                Err(e) => {
                    assert(self@ == before.skip(removed as int));
                    return Err(RepositoryError::Query(sled_error_text(&e)));
                },
            };
            match first {
                Some((key, _)) => {
                    proof {
                        lemma_without_first(current);
                        assert(current.skip(1) =~= before.skip(removed + 1));
                        lemma_eviction_keeps_newest(before, removed + 1, 0);
                    }
                    match tree_remove(&mut self.records_tree, key.as_slice()) {
                        Ok(_) => {
                            removed += 1;
                        },
                        Err(e) => {
                            assert(self@ == before.skip(removed as int) || self@ == before.skip(
                                removed + 1,
                            ));
                            return Err(RepositoryError::Delete(sled_error_text(&e)));
                        },
                    }
                },
                None => {
                    return Ok(removed);
                },
            }
        }
        Ok(removed)
    }
}

/// Where every one of the newest entries has been read, from the last one
/// down, what was read is what they stand for.
proof fn lemma_newest_read(s: Entries, n: nat, read: Seq<RecordView>)
    requires
        read.len() <= s.len(),
        read.len() == n || read.len() == s.len(),
        read.len() <= n,
        forall|i: int|
            0 <= i < read.len() ==> record_of(s[s.len() - 1 - i].1) == Some(#[trigger] read[i]),
    ensures
        records_in(newest(s, n)) == Some(read),
{
    let es = newest(s, n);
    assert(es.len() == read.len());
    assert forall|i: int| 0 <= i < es.len() implies record_of((#[trigger] es[i]).1) is Some by {
        assert(record_of(s[s.len() - 1 - i].1) == Some(read[i]));
    }
    assert(Seq::new(es.len(), |i: int| record_of(es[i].1).unwrap()) =~= read) by {
        assert forall|i: int| 0 <= i < es.len() implies record_of(es[i].1).unwrap() == read[i] by {
            assert(record_of(s[s.len() - 1 - i].1) == Some(read[i]));
        }
    }
}

/// In a well keyed, rising log the ids of the newest records fall strictly
/// from each to the next.
pub proof fn lemma_newest_ids_fall(s: Entries, n: nat)
    requires
        ascending(s),
        well_keyed(s),
    ensures
        records_in(newest(s, n)) matches Some(records) && forall|i: int, j: int|
            0 <= i < j < records.len() ==> (#[trigger] records[i]).id > (#[trigger] records[j]).id,
{
    let es = newest(s, n);
    assert forall|i: int| 0 <= i < es.len() implies record_of((#[trigger] es[i]).1) is Some by {
        assert(es[i] == s[s.len() - 1 - i]);
    }
    let records = records_in(es).unwrap();
    assert forall|i: int, j: int| 0 <= i < j < records.len() implies (#[trigger] records[i]).id
        > (#[trigger] records[j]).id by {
        let older = s[s.len() - 1 - j];
        let newer = s[s.len() - 1 - i];
        assert(es[i] == newer && es[j] == older);
        assert(lex_lt(older.0, newer.0));
        lemma_key_order(records[j].id, records[i].id);
    }
}

/// The same of the records as they were read.
proof fn lemma_read_ids_fall(s: Entries, n: nat, records: Seq<ClipboardRecord>)
    requires
        ascending(s),
        records_in(newest(s, n)) == Some(views(records)),
    ensures
        well_keyed(s) ==> forall|i: int, j: int|
            0 <= i < j < records.len() ==> (#[trigger] records[i]).id > (#[trigger] records[j]).id,
{
    if well_keyed(s) {
        lemma_newest_ids_fall(s, n);
        let read = views(records);
        assert forall|i: int, j: int| 0 <= i < j < records.len() implies (#[trigger] records[i]).id
            > (#[trigger] records[j]).id by {
            assert(read[i] == records[i]@ && read[j] == records[j]@);
        }
    }
}

} // verus!
