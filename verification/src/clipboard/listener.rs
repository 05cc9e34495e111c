//! The capture side: what the monitor does about a change of the clipboard,
//! and how a capture enters the store and the list that mirrors it.

use super::{ClipboardEvent, LastCopy, LastCopyState, Payload};
use crate::repository::clock::{is_clock_reading, read_clock, ClockReading};
use crate::repository::codec::{record_of, stored_form};
use crate::repository::errors::RepositoryError;
use crate::repository::laws::{lemma_newer_record_goes_last, saved};
use crate::repository::models::{views, ClipboardRecord, ContentType, RecordView};
use crate::repository::order::{ascending, key_bytes, lemma_key_order, lex_lt, newest, Entries};
use crate::repository::repo::{excess, record_at, records_in, well_keyed, ClipboardRepository};
use vstd::prelude::*;

verus! {

/// What a look at the clipboard found after a change was announced.
#[derive(Debug)]
pub enum ClipboardReading {
    /// An image; what is kept of it here is the fingerprint of its pixels.
    Image(u64),
    /// A text, where no image could be read.
    Text(String),
    /// Neither could be read.
    Unreadable,
}

/// What the monitor does about a change of the clipboard.
#[derive(Debug)]
pub enum CaptureAction {
    /// Nothing: the clipboard could not be read, or it holds what it is
    /// already believed to hold.
    Ignore,
    /// A new text: this event goes to the history.
    Emit(ClipboardEvent),
    /// A new image: it is stored on disk, and the event with its path goes to
    /// the history.
    PersistImage,
}

/// A reading as contracts speak of it.
pub enum ReadingView {
    Image(u64),
    Text(Seq<char>),
    Unreadable,
}

impl View for ClipboardReading {
    type V = ReadingView;

    open spec fn view(&self) -> ReadingView {
        match self {
            ClipboardReading::Image(fingerprint) => ReadingView::Image(*fingerprint),
            ClipboardReading::Text(text) => ReadingView::Text(text@),
            ClipboardReading::Unreadable => ReadingView::Unreadable,
        }
    }
}

/// A reading is novel when something was read and it is not the last copy.
pub open spec fn is_novel(last: LastCopy, reading: ReadingView) -> bool {
    match reading {
        ReadingView::Image(fingerprint) => last != LastCopy::Image(fingerprint),
        ReadingView::Text(text) => last != LastCopy::Text(text),
        ReadingView::Unreadable => false,
    }
}

/// The last copy after a reading: what was read where it is novel, and
/// otherwise what it was.
pub open spec fn after_reading(last: LastCopy, reading: ReadingView) -> LastCopy {
    match reading {
        ReadingView::Image(fingerprint) => LastCopy::Image(fingerprint),
        ReadingView::Text(text) => LastCopy::Text(text),
        ReadingView::Unreadable => last,
    }
}

/// One step of the capture monitor: compares what was read with the last
/// copy and, where it is novel, makes it the last copy and says what is to be
/// captured. The caller holds the lock on the last copy for the whole step.
pub fn on_clipboard_change(last_copy: &mut LastCopyState, reading: ClipboardReading) -> (action:
    CaptureAction)
    ensures
        final(last_copy)@ == after_reading(old(last_copy)@, reading@),
        match action {
            CaptureAction::Ignore => !is_novel(old(last_copy)@, reading@),
            CaptureAction::Emit(event) => {
                &&& is_novel(old(last_copy)@, reading@)
                &&& reading@ matches ReadingView::Text(text)
                &&& event@ == Payload::Text(text)
            },
            CaptureAction::PersistImage => is_novel(old(last_copy)@, reading@)
                && reading@ is Image,
        },
{
    match reading {
        ClipboardReading::Image(fingerprint) => {
            if last_copy.is_image(fingerprint) {
                CaptureAction::Ignore
            } else {
                *last_copy = LastCopyState::Image(fingerprint);
                CaptureAction::PersistImage
            }
        },
        ClipboardReading::Text(text) => {
            if last_copy.is_text(text.as_str()) {
                CaptureAction::Ignore
            } else {
                *last_copy = LastCopyState::Text(text.clone());
                CaptureAction::Emit(ClipboardEvent::Text(text))
            }
        },
        ClipboardReading::Unreadable => CaptureAction::Ignore,
    }
}

/// What is read a second time in a row is not novel the second time.
pub proof fn lemma_repeated_reading_is_ignored(last: LastCopy, reading: ReadingView)
    ensures
        !is_novel(after_reading(last, reading), reading),
{
}

/// What became of the oldest records when a capture made the list overflow.
#[derive(Debug)]
pub enum Eviction {
    /// The list did not overflow, and the store was left as it was.
    NotNeeded,
    /// The store dropped this many of its oldest records.
    Done(usize),
    /// The store failed while dropping its oldest records.
    Failed(RepositoryError),
}

/// The record that an event becomes when it is saved at a reading of the clock.
pub open spec fn record_of_event(now: ClockReading, event: Payload) -> RecordView {
    match event {
        Payload::Text(text) => record_at(now, text, ContentType::Text),
        Payload::Image(path) => record_at(now, path, ContentType::Image),
    }
}

/// The list after a record came in at its front, cut to `max` records.
pub open spec fn mirror_after(mirror: Seq<RecordView>, record: RecordView, max: nat) -> Seq<
    RecordView,
> {
    let grown = seq![record] + mirror;
    if grown.len() > max {
        grown.take(max as int)
    } else {
        grown
    }
}

/// The store as a capture leaves it where nothing fails: with the record in
/// it, and without its oldest records where the list overflowed.
pub open spec fn store_after_capture(
    store: Entries,
    mirror: Seq<RecordView>,
    record: RecordView,
    max: nat,
) -> Entries {
    let with_record = saved(store, record);
    if mirror.len() + 1 > max {
        with_record.skip(excess(with_record.len(), max) as int)
    } else {
        with_record
    }
}

/// What an eviction says of the store that a capture leaves. `store` and
/// `mirror` are the store and the list before the capture, `record` is what
/// was captured, and `left` is the store as it is left.
pub open spec fn evicted(
    store: Entries,
    mirror: Seq<RecordView>,
    record: RecordView,
    max: nat,
    left: Entries,
    eviction: Eviction,
) -> bool {
    let overflow = mirror.len() + 1 > max;
    let with_record = saved(store, record);
    match eviction {
        Eviction::NotNeeded => !overflow && left == store_after_capture(store, mirror, record, max),
        Eviction::Done(gone) => overflow && gone == excess(with_record.len(), max) && left
            == store_after_capture(store, mirror, record, max),
        Eviction::Failed(e) => {
            &&& overflow
            &&& e is Query || e is Delete
            &&& exists|gone: int|
                0 <= gone <= excess(with_record.len(), max) && left == #[trigger] with_record.skip(
                    gone,
                )
        },
    }
}

/// Takes a capture into the history at a given reading of the clock: saves
/// it in the store, puts the record at the front of the list, and where the
/// list now has more than `max_history_records`, cuts it to that many and has
/// the store drop what it holds beyond them.
///
/// Where saving fails the list is left as it was and the capture is lost.
pub fn record_capture_at(
    repository: &mut ClipboardRepository,
    shared_records: &mut Vec<ClipboardRecord>,
    now: ClockReading,
    event: ClipboardEvent,
    max_history_records: usize,
) -> (r: Result<Eviction, RepositoryError>)
    requires
        old(repository).wf(),
    ensures
        final(repository).wf(),
        final(repository).images_path() == old(repository).images_path(),
        well_keyed(old(repository)@) ==> well_keyed(final(repository)@),
        r is Ok ==> views(final(shared_records)@) == mirror_after(
            views(old(shared_records)@),
            record_of_event(now, event@),
            max_history_records as nat,
        ),
        r matches Ok(eviction) ==> evicted(
            old(repository)@,
            views(old(shared_records)@),
            record_of_event(now, event@),
            max_history_records as nat,
            final(repository)@,
            eviction,
        ),
        r matches Ok(eviction) ==> record_of(stored_form(record_of_event(now, event@))) == Some(
            record_of_event(now, event@),
        ),
        r is Err ==> final(shared_records)@ == old(shared_records)@,
        r matches Err(e) ==> {
            &&& e is Insert
            &&& final(repository)@ == old(repository)@ || final(repository)@ == saved(
                old(repository)@,
                record_of_event(now, event@),
            )
        },
{
    let result = match event {
        ClipboardEvent::Text(text) => repository.save_at(now, text, ContentType::Text),
        ClipboardEvent::Image(path) => repository.save_at(now, path, ContentType::Image),
    };
    match result {
        Ok(record) => {
            let ghost before = views(shared_records@);
            let ghost made = record@;
            let ghost after = mirror_after(before, made, max_history_records as nat);
            assert(made == record_of_event(now, event@));
            assert(before.len() == shared_records.len());
            shared_records.insert(0, record);
            let ghost grown = views(shared_records@);
            assert(grown =~= seq![made] + before);
            if shared_records.len() > max_history_records {
                shared_records.truncate(max_history_records);
                assert(views(shared_records@) =~= grown.take(max_history_records as int));
                assert(views(shared_records@) == after);
                match repository.cleanup_old_records(max_history_records) {
                    Ok(gone) => Ok(Eviction::Done(gone)),
                    Err(e) => Ok(Eviction::Failed(e)),
                }
            } else {
                assert(views(shared_records@) == after);
                Ok(Eviction::NotNeeded)
            }
        },
        Err(e) => Err(e),
    }
}

/// What a capture of `record` comes to. `store` and `mirror` are the store
/// and the list before it, `left` and `shown` the store and the list after it.
///
/// Where it succeeds, the record reads back from the store, the list has it
/// at its front and is cut to `max` records, and the store is as the
/// eviction says. It fails only where the store fails to take the record;
/// then the list is as it was, and the store is as it was, or has the record
/// all the same.
pub open spec fn capture_outcome(
    store: Entries,
    mirror: Seq<ClipboardRecord>,
    record: RecordView,
    max: nat,
    left: Entries,
    shown: Seq<ClipboardRecord>,
    r: Result<Eviction, RepositoryError>,
) -> bool {
    match r {
        Ok(eviction) => {
            &&& record_of(stored_form(record)) == Some(record)
            &&& views(shown) == mirror_after(views(mirror), record, max)
            &&& evicted(store, views(mirror), record, max, left, eviction)
        },
        Err(e) => {
            &&& shown == mirror
            &&& e is Insert
            &&& left == store || left == saved(store, record)
        },
    }
}

/// Takes a capture into the history now: this is [`record_capture_at`] at
/// the reading of the clock that it takes itself. What it comes to is what a
/// capture at some reading of the clock comes to; which reading, the clock
/// decides, and whether it succeeds, the store.
pub fn record_capture(
    repository: &mut ClipboardRepository,
    shared_records: &mut Vec<ClipboardRecord>,
    event: ClipboardEvent,
    max_history_records: usize,
) -> (r: Result<Eviction, RepositoryError>)
    requires
        old(repository).wf(),
    ensures
        final(repository).wf(),
        final(repository).images_path() == old(repository).images_path(),
        well_keyed(old(repository)@) ==> well_keyed(final(repository)@),
        r is Err ==> final(shared_records)@ == old(shared_records)@,
        exists|now: ClockReading|
            is_clock_reading(now) && capture_outcome(
                old(repository)@,
                old(shared_records)@,
                #[trigger] record_of_event(now, event@),
                max_history_records as nat,
                final(repository)@,
                final(shared_records)@,
                r,
            ),
{
    let now = read_clock();
    let r = record_capture_at(repository, shared_records, now, event, max_history_records);
    assert(capture_outcome(
        old(repository)@,
        old(shared_records)@,
        record_of_event(now, event@),
        max_history_records as nat,
        repository@,
        shared_records@,
        r,
    ));
    r
}

/// The list shows the store: it holds the records of the newest entries of
/// the store, as many as the history may hold, the newest first.
pub open spec fn mirrors(mirror: Seq<RecordView>, store: Entries, max: nat) -> bool {
    records_in(newest(store, max)) == Some(mirror)
}

/// A capture keeps the list and the store in step. Where the list shows the
/// store, and the record that comes in is newer than all that the store
/// holds, then after the capture the list shows the store again, and the
/// store is in order, well keyed, and holds no more than the history may hold.
pub proof fn lemma_capture_keeps_list_in_step(
    store: Entries,
    mirror: Seq<RecordView>,
    record: RecordView,
    max: nat,
)
    requires
        ascending(store),
        well_keyed(store),
        mirrors(mirror, store, max),
        record_of(stored_form(record)) == Some(record),
        forall|i: int|
            0 <= i < store.len() ==> record_of((#[trigger] store[i]).1).unwrap().id < record.id,
    ensures
        mirrors(
            mirror_after(mirror, record, max),
            store_after_capture(store, mirror, record, max),
            max,
        ),
        ascending(store_after_capture(store, mirror, record, max)),
        well_keyed(store_after_capture(store, mirror, record, max)),
        store_after_capture(store, mirror, record, max).len() <= max,
{
    let entry = (key_bytes(record.id), stored_form(record));
    let with_record = saved(store, record);
    lemma_newer_record_goes_last(store, record);
    assert(with_record == store.push(entry));
    let left = store_after_capture(store, mirror, record, max);
    let shown = mirror_after(mirror, record, max);
    let old_newest = newest(store, max);
    assert(mirror.len() == old_newest.len());
    let gone = with_record.len() - left.len();
    assert(left =~= with_record.skip(gone));
    assert forall|i: int| 0 <= i < left.len() implies record_of((#[trigger] left[i]).1) is Some
        && left[i].0 == key_bytes(record_of(left[i].1).unwrap().id) by {
        if i + gone < store.len() {
            assert(left[i] == store[i + gone]);
        } else {
            assert(left[i] == entry);
        }
    }
    assert forall|i: int, j: int| 0 <= i < j < left.len() implies lex_lt(
        #[trigger] left[i].0,
        #[trigger] left[j].0,
    ) by {
        assert(left[i] == store[i + gone]);
        if j + gone < store.len() {
            assert(left[j] == store[j + gone]);
        } else {
            assert(left[j] == entry);
            lemma_key_order(record_of(store[i + gone].1).unwrap().id, record.id);
        }
    }
    let now_newest = newest(left, max);
    assert(now_newest.len() == shown.len());
    assert forall|i: int| 0 <= i < now_newest.len() implies record_of((#[trigger] now_newest[i]).1)
        == Some(shown[i]) by {
        if i == 0 {
            assert(now_newest[0] == entry);
        } else {
            assert(now_newest[i] == old_newest[i - 1]);
            assert(record_of(old_newest[i - 1].1) is Some);
            assert(mirror[i - 1] == record_of(old_newest[i - 1].1).unwrap());
        }
    }
    assert(records_in(now_newest).unwrap() =~= shown);
}

} // verus!
