//! What the board asks of the history: the list to show, the pick of an
//! entry, and the removal of one entry or of all.

use crate::clipboard::{nothing_yet, CopyRequest, LastCopyState, Payload};
use crate::repository::errors::RepositoryError;
use crate::repository::models::{views, ClipboardRecord, ContentType, RecordView};
use crate::repository::codec::record_of;
use crate::repository::order::{has_key, key_bytes, newest, value_under, without_key};
use crate::repository::repo::{
    found_by, records_in, well_keyed, ClipboardRepository, Deletion,
};
use vstd::prelude::*;
use vstd::string::StringExecFns;

verus! {

/// The test that a record has another id than `id`.
pub open spec fn other_than(id: u64) -> spec_fn(RecordView) -> bool {
    |record: RecordView| record.id != id
}

/// A copy of a list of records.
pub fn copy_records(records: &Vec<ClipboardRecord>) -> (copy: Vec<ClipboardRecord>)
    ensures
        views(copy@) == views(records@),
{
    let mut copy: Vec<ClipboardRecord> = Vec::new();
    let mut i: usize = 0;
    while i < records.len()
        invariant
            i <= records.len(),
            copy.len() == i,
            forall|j: int| 0 <= j < i ==> (#[trigger] copy[j])@ == records[j]@,
        decreases records.len() - i,
    {
        copy.push(records[i].clone());
        i += 1;
    }
    assert(views(copy@) =~= views(records@));
    copy
}

/// What the list takes from an attempt to read the store: the records that
/// were read, or none where the attempt failed.
pub fn records_or_none(found: Result<Vec<ClipboardRecord>, RepositoryError>) -> (records: Vec<
    ClipboardRecord,
>)
    ensures
        match found {
            Ok(read) => records == read,
            Err(_) => records@.len() == 0,
        },
{
    match found {
        Ok(read) => read,
        Err(_) => Vec::new(),
    }
}

/// The records with which the list starts: the newest of the store, as many
/// as the history may hold; none without a store, or where the store fails.
/// Whether the store fails is the store's to say; what is made of its
/// answer, [`records_or_none`] says.
pub fn load_initial_records(repository: Option<&ClipboardRepository>, max_records: usize) -> (records:
    Vec<ClipboardRecord>)
    requires
        repository matches Some(repo) ==> repo.wf(),
    ensures
        repository is None ==> records@.len() == 0,
        repository matches Some(repo) ==> records@.len() == 0 || records_in(
            newest(repo@, max_records as nat),
        ) == Some(views(records@)),
{
    match repository {
        Some(repo) => records_or_none(repo.get_recent(max_records)),
        None => Vec::new(),
    }
}

/// Get filtered records based on search query
///
/// Without a query these are the records of the list. With one they are
/// what the store finds for it, and none without a store or where the store
/// fails.
pub fn get_filtered_records(
    repository: Option<&ClipboardRepository>,
    records: &Vec<ClipboardRecord>,
    query: &str,
) -> (shown: Vec<ClipboardRecord>)
    requires
        repository matches Some(repo) ==> repo.wf(),
    ensures
        query@.len() == 0 ==> views(shown@) == views(records@),
        query@.len() > 0 && repository is None ==> shown@.len() == 0,
        query@.len() > 0 ==> (repository matches Some(repo) ==> shown@.len() == 0 || (records_in(
            newest(repo@, repo@.len()),
        ) matches Some(all) && views(shown@) == all.filter(found_by(query@)))),
{
    if query.is_empty() {
        copy_records(records)
    } else {
        match repository {
            Some(repo) => match repo.search(query) {
                Ok(found) => found,
                Err(_) => Vec::new(),
            },
            None => Vec::new(),
        }
    }
}

/// The request that puts a content back on the clipboard: one for a text
/// and for an image, none for anything else.
pub fn copy_request_for(content: &str, content_type: ContentType) -> (request: Option<CopyRequest>)
    ensures
        match content_type {
            ContentType::Text => request matches Some(r) && r@ == Payload::Text(content@),
            ContentType::Image => request matches Some(r) && r@ == Payload::Image(content@),
            ContentType::FilePath => request is None,
        },
{
    match content_type {
        ContentType::Text => Some(CopyRequest::Text(String::from_str(content))),
        ContentType::Image => Some(CopyRequest::Image(String::from_str(content))),
        ContentType::FilePath => None,
    }
}

/// What follows when an entry of the shown list is picked.
#[derive(Debug)]
pub struct Confirmation {
    /// What goes to the write-back side, if the entry can be written back.
    pub request: Option<CopyRequest>,
    /// The id of the entry where it is to be deleted: every entry but the
    /// first is, so that its capture puts it first again.
    pub delete: Option<u64>,
}

/// Picks the entry at `index` of the shown list; `None` where the list has
/// no such entry.
pub fn confirm_record(shown: &Vec<ClipboardRecord>, index: usize) -> (r: Option<Confirmation>)
    ensures
        r is Some <==> index < shown.len(),
        r matches Some(confirmation) ==> {
            let record = shown[index as int];
            &&& confirmation.delete == (if index != 0 {
                Some(record.id)
            } else {
                None
            })
            &&& match record.content_type {
                ContentType::Text => confirmation.request matches Some(request) && request@
                    == Payload::Text(record.content@),
                ContentType::Image => confirmation.request matches Some(request) && request@
                    == Payload::Image(record.content@),
                ContentType::FilePath => confirmation.request is None,
            }
        },
{
    if index < shown.len() {
        let record = &shown[index];
        let request = copy_request_for(record.content.as_str(), record.content_type);
        let delete = if index != 0 {
            Some(record.id)
        } else {
            None
        };
        Some(Confirmation { request, delete })
    } else {
        None
    }
}

/// Delete a single record by ID
///
/// The store deletes first. Where it fails, the list is left as it was;
/// where it succeeds, the list loses every record with this id.
pub fn delete_record(
    repository: &mut ClipboardRepository,
    records: &mut Vec<ClipboardRecord>,
    id: u64,
) -> (r: Result<Deletion, RepositoryError>)
    requires
        old(repository).wf(),
    ensures
        final(repository).wf(),
        final(repository).images_path() == old(repository).images_path(),
        well_keyed(old(repository)@) ==> well_keyed(final(repository)@),
        r is Ok ==> views(final(records)@) == views(old(records)@).filter(other_than(id)),
        r is Err ==> final(records)@ == old(records)@,
        r is Ok ==> final(repository)@ == without_key(
            old(repository)@,
            key_bytes(id),
        ),
        r matches Ok(deletion) ==> deletion.removed == has_key(
            old(repository)@,
            key_bytes(id),
        ),
        r matches Err(e) ==> {
            ||| e is Query && final(repository)@ == old(repository)@
            ||| {
                &&& e is Deserialization
                &&& final(repository)@ == old(repository)@
                &&& value_under(old(repository)@, key_bytes(id)) matches Some(bytes)
                &&& record_of(bytes) is None
            }
            ||| e is Delete && final(repository)@ == old(repository)@
            ||| e is Delete && final(repository)@ == without_key(old(repository)@, key_bytes(id))
        },
{
    match repository.delete(id) {
        Ok(deletion) => {
            let ghost before = views(records@);
            let ghost mut done: int = 0;
            let mut i: usize = 0;
            proof {
                reveal(Seq::filter);
                assert(before.take(0).filter(other_than(id)) =~= Seq::<RecordView>::empty());
                assert(views(records@) =~= before.take(0).filter(other_than(id)) + before.skip(0));
            }
            while i < records.len()
                invariant
                    0 <= done <= before.len(),
                    i == before.take(done).filter(other_than(id)).len(),
                    views(records@) == before.take(done).filter(other_than(id)) + before.skip(done),
                decreases before.len() - done,
            {
                let ghost kept = before.take(done).filter(other_than(id));
                let ghost current = views(records@);
                assert(current[i as int] == before[done]);
                assert(current[i as int] == records[i as int]@);
                proof {
                    before.take(done).lemma_filter_push(before[done], other_than(id));
                    assert(before.take(done).push(before[done]) =~= before.take(done + 1));
                }
                if records[i].id == id {
                    let ghost prev = records@;
                    records.remove(i);
                    let ghost target = kept + before.skip(done + 1);
                    assert(current.len() == kept.len() + before.skip(done).len());
                    assert(views(records@).len() == target.len());
                    assert forall|j: int| 0 <= j < records@.len() implies views(records@)[j]
                        == target[j] by {
                        assert(views(records@)[j] == records@[j]@);
                        if j < i {
                            assert(records@[j] == prev[j]);
                            assert(current[j] == prev[j]@);
                            assert(current[j] == kept[j]);
                            assert(target[j] == kept[j]);
                        } else {
                            assert(records@[j] == prev[j + 1]);
                            assert(current[j + 1] == prev[j + 1]@);
                            assert(current[j + 1] == before.skip(done)[j + 1 - i]);
                            assert(target[j] == before.skip(done + 1)[j - i]);
                        }
                    }
                    assert(views(records@) =~= kept + before.skip(done + 1));
                } else {
                    assert(current =~= kept.push(before[done]) + before.skip(done + 1));
                    i += 1;
                }
                proof {
                    done = done + 1;
                }
            }
            assert(before.take(done) =~= before);
            assert(views(records@) =~= before.filter(other_than(id)));
            Ok(deletion)
        },
        Err(e) => Err(e),
    }
}

/// Clear clipboard history
///
/// The store clears first. Where it succeeds, the list is emptied too. The
/// last copy is forgotten either way.
pub fn clear_history(
    repository: &mut ClipboardRepository,
    records: &mut Vec<ClipboardRecord>,
    last_copy: &mut LastCopyState,
) -> (r: Result<(), RepositoryError>)
    requires
        old(repository).wf(),
    ensures
        final(repository).wf(),
        final(repository).images_path() == old(repository).images_path(),
        well_keyed(old(repository)@) ==> well_keyed(final(repository)@),
        final(last_copy)@ == nothing_yet(),
        match r {
            Ok(()) => final(repository)@.len() == 0 && final(records)@.len() == 0,
            Err(e) => e is Delete && final(records)@ == old(records)@ && forall|i: int|
                0 <= i < final(repository)@.len() ==> old(repository)@.contains(
                    #[trigger] final(repository)@[i],
                ),
        },
{
    let result = repository.clear();
    if result.is_ok() {
        records.clear();
    }
    last_copy.clear();
    result
}

/// The entry above the selected one; the first entry stays selected.
pub fn select_prev(selected: usize) -> (now: usize)
    ensures
        now == if selected > 0 {
            selected - 1
        } else {
            0
        },
{
    if selected > 0 {
        selected - 1
    } else {
        selected
    }
}

/// The entry below the selected one, in a list of `count` entries; the last
/// entry stays selected.
pub fn select_next(selected: usize, count: usize) -> (now: usize)
    ensures
        now == if count > 0 && selected < count - 1 {
            selected + 1
        } else {
            selected as int
        },
{
    if count > 0 && selected < count - 1 {
        selected + 1
    } else {
        selected
    }
}

/// The selection in a list that now has `count` entries: the last entry
/// where the selection lies beyond it, the first place in an empty list.
pub fn clamp_selection(selected: usize, count: usize) -> (now: usize)
    ensures
        now == if count == 0 {
            0
        } else if selected >= count {
            count - 1
        } else {
            selected as int
        },
        count > 0 ==> now < count,
{
    if selected >= count && count > 0 {
        count - 1
    } else if count == 0 {
        0
    } else {
        selected
    }
}

/// What a key does on the board.
#[derive(Debug, Clone, Copy, PartialEq, Eq, Structural)]
pub enum KeyAction {
    /// The search field gets the focus.
    FocusSearch,
    /// The key belongs to the search field, or means nothing here.
    Nothing,
    /// The preview is switched on or off.
    TogglePreview,
    /// The entry at this place of the shown list is picked.
    Confirm(usize),
}

/// What a key does on the board, as contracts say it.
pub open spec fn key_meaning(key: Seq<char>, search_focused: bool) -> KeyAction {
    if key == "/"@ {
        KeyAction::FocusSearch
    } else if search_focused {
        KeyAction::Nothing
    } else if key == "space"@ {
        KeyAction::TogglePreview
    } else if key == "1"@ {
        KeyAction::Confirm(0)
    } else if key == "2"@ {
        KeyAction::Confirm(1)
    } else if key == "3"@ {
        KeyAction::Confirm(2)
    } else if key == "4"@ {
        KeyAction::Confirm(3)
    } else if key == "5"@ {
        KeyAction::Confirm(4)
    } else {
        KeyAction::Nothing
    }
}

/// Decides what a key does: `/` leads to the search field; while that field
/// has the focus every other key is its own; else the space bar switches the
/// preview, and the keys 1 to 5 pick one of the first five entries.
pub fn key_action(key: &str, search_focused: bool) -> (action: KeyAction)
    ensures
        action == key_meaning(key@, search_focused),
{
    let key = String::from_str(key);
    if key == String::from_str("/") {
        KeyAction::FocusSearch
    } else if search_focused {
        KeyAction::Nothing
    } else if key == String::from_str("space") {
        KeyAction::TogglePreview
    } else if key == String::from_str("1") {
        KeyAction::Confirm(0)
    } else if key == String::from_str("2") {
        KeyAction::Confirm(1)
    } else if key == String::from_str("3") {
        KeyAction::Confirm(2)
    } else if key == String::from_str("4") {
        KeyAction::Confirm(3)
    } else if key == String::from_str("5") {
        KeyAction::Confirm(4)
    } else {
        KeyAction::Nothing
    }
}

} // verus!
