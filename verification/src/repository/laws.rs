//! What holds of the store whatever is saved in it and deleted from it.

use super::codec::{record_of, stored_form};
use super::models::RecordView;
use super::order::{
    ascending, has_key, key_bytes, lemma_key_order, lemma_rank,
    lemma_with_entry_ascending, lemma_with_entry_shape, lemma_with_entry_values,
    lemma_with_newest_entry, lemma_without_key_ascending, lemma_without_key_shape,
    lemma_without_key_values, lex_lt, newest, rank, rank_after, value_under, with_entry,
    without_key, Entries,
};
use super::repo::{found_by, matches_keyword, well_keyed};
use vstd::prelude::*;

verus! {

/// The store after a record was saved in it.
pub open spec fn saved(s: Entries, record: RecordView) -> Entries {
    with_entry(s, key_bytes(record.id), stored_form(record))
}

/// The store after one record after the other was saved in it.
pub open spec fn saved_all(s: Entries, records: Seq<RecordView>) -> Entries
    decreases records.len(),
{
    if records.len() == 0 {
        s
    } else {
        saved(saved_all(s, records.drop_last()), records.last())
    }
}

/// A record reads back: after it was saved, what stands under its id is its
/// stored form, which stands for the record itself.
pub proof fn lemma_saved_record_reads_back(s: Entries, record: RecordView)
    requires
        ascending(s),
        record_of(stored_form(record)) == Some(record),
    ensures
        value_under(saved(s, record), key_bytes(record.id)) matches Some(bytes) && record_of(bytes)
            == Some(record),
{
    lemma_with_entry_values(s, key_bytes(record.id), stored_form(record), key_bytes(record.id));
}

/// Saving a record leaves every other id with what stood under it.
pub proof fn lemma_save_leaves_others(s: Entries, record: RecordView, other: u64)
    requires
        ascending(s),
        other != record.id,
    ensures
        value_under(saved(s, record), key_bytes(other)) == value_under(s, key_bytes(other)),
{
    lemma_key_order(other, record.id);
    lemma_with_entry_values(s, key_bytes(record.id), stored_form(record), key_bytes(other));
}

/// Saving under an id that the store does not hold makes it one record
/// longer; saving under an id that it holds replaces that record and leaves
/// the length.
pub proof fn lemma_save_length(s: Entries, record: RecordView)
    requires
        ascending(s),
    ensures
        saved(s, record).len() == if has_key(s, key_bytes(record.id)) {
            s.len()
        } else {
            s.len() + 1
        },
{
    lemma_rank(s, key_bytes(record.id));
    lemma_with_entry_shape(s, key_bytes(record.id), stored_form(record));
}

/// A record with an id above every id in the store goes to the end of the
/// log: the store keeps the order in which such records come.
pub proof fn lemma_newer_record_goes_last(s: Entries, record: RecordView)
    requires
        ascending(s),
        well_keyed(s),
        forall|i: int| 0 <= i < s.len() ==> record_of((#[trigger] s[i]).1).unwrap().id < record.id,
    ensures
        saved(s, record) == s.push((key_bytes(record.id), stored_form(record))),
{
    assert forall|i: int| 0 <= i < s.len() implies lex_lt(
        (#[trigger] s[i]).0,
        key_bytes(record.id),
    ) by {
        lemma_key_order(record_of(s[i].1).unwrap().id, record.id);
    }
    lemma_with_newest_entry(s, key_bytes(record.id), stored_form(record));
}

/// Saving a record that reads back keeps the log in order and well keyed.
pub proof fn lemma_save_keeps_order(s: Entries, record: RecordView)
    requires
        ascending(s),
    ensures
        ascending(saved(s, record)),
        well_keyed(s) && record_of(stored_form(record)) == Some(record) ==> well_keyed(
            saved(s, record),
        ),
{
    let key = key_bytes(record.id);
    let n = saved(s, record);
    lemma_with_entry_ascending(s, key, stored_form(record));
    lemma_with_entry_shape(s, key, stored_form(record));
    lemma_rank(s, key);
    if well_keyed(s) && record_of(stored_form(record)) == Some(record) {
        let r = rank(s, key);
        let q = rank_after(s, key);
        assert forall|i: int| 0 <= i < n.len() implies record_of((#[trigger] n[i]).1) is Some
            && n[i].0 == key_bytes(record_of(n[i].1).unwrap().id) by {
            if i < r {
                assert(n[i] == s[i]);
            } else if i > r {
                assert(n[i] == s[i - r - 1 + q]);
            }
        }
    }
}

/// Deleting removes the record under the id and no other: the store is one
/// record shorter where it held the id, and as it was where it did not;
/// afterwards nothing stands under the id, so that deleting it again finds
/// nothing; and every other id has what stood under it.
pub proof fn lemma_delete_removes_one(s: Entries, id: u64, other: u64)
    requires
        ascending(s),
    ensures
        ascending(without_key(s, key_bytes(id))),
        without_key(s, key_bytes(id)).len() == if has_key(s, key_bytes(id)) {
            s.len() - 1
        } else {
            s.len() as int
        },
        !has_key(s, key_bytes(id)) ==> without_key(s, key_bytes(id)) == s,
        !has_key(without_key(s, key_bytes(id)), key_bytes(id)),
        other != id ==> value_under(without_key(s, key_bytes(id)), key_bytes(other)) == value_under(
            s,
            key_bytes(other),
        ),
        well_keyed(s) ==> well_keyed(without_key(s, key_bytes(id))),
{
    let key = key_bytes(id);
    let n = without_key(s, key);
    lemma_rank(s, key);
    lemma_without_key_shape(s, key);
    lemma_without_key_ascending(s, key);
    lemma_without_key_values(s, key, key_bytes(other));
    lemma_key_order(other, id);
    let r = rank(s, key);
    let q = rank_after(s, key);
    if !has_key(s, key) {
        assert(n =~= s);
    }
    if well_keyed(s) {
        assert forall|i: int| 0 <= i < n.len() implies record_of((#[trigger] n[i]).1) is Some
            && n[i].0 == key_bytes(record_of(n[i].1).unwrap().id) by {
            if i < r {
                assert(n[i] == s[i]);
            } else {
                assert(n[i] == s[i - r + q]);
            }
        }
    }
}

/// Dropping the oldest records keeps the log in order and well keyed, and
/// leaves the newest records as they were.
pub proof fn lemma_eviction_keeps_newest(s: Entries, gone: int, n: nat)
    requires
        ascending(s),
        0 <= gone <= s.len(),
        n <= s.len() - gone,
    ensures
        ascending(s.skip(gone)),
        well_keyed(s) ==> well_keyed(s.skip(gone)),
        newest(s.skip(gone), n) == newest(s, n),
{
    let t = s.skip(gone);
    assert forall|i: int, j: int| 0 <= i < j < t.len() implies lex_lt(
        #[trigger] t[i].0,
        #[trigger] t[j].0,
    ) by {
        assert(t[i] == s[i + gone] && t[j] == s[j + gone]);
    }
    if well_keyed(s) {
        assert forall|i: int| 0 <= i < t.len() implies record_of((#[trigger] t[i]).1) is Some
            && t[i].0 == key_bytes(record_of(t[i].1).unwrap().id) by {
            assert(t[i] == s[i + gone]);
        }
    }
    assert(newest(t, n) =~= newest(s, n));
}

/// Records with ids that differ from one another and from every id in the
/// store all find their place: after they were saved, in whatever order they
/// came, the store holds as many more records as were saved, in the order of
/// their ids, and each of them under its own id.
pub proof fn lemma_distinct_saves_all_land(s: Entries, records: Seq<RecordView>)
    requires
        ascending(s),
        forall|i: int| 0 <= i < records.len() ==> !has_key(s, key_bytes((#[trigger] records[i]).id)),
        forall|i: int, j: int|
            0 <= i < j < records.len() ==> (#[trigger] records[i]).id != (#[trigger] records[j]).id,
    ensures
        ascending(saved_all(s, records)),
        saved_all(s, records).len() == s.len() + records.len(),
        forall|i: int|
            0 <= i < records.len() ==> value_under(
                saved_all(s, records),
                key_bytes((#[trigger] records[i]).id),
            ) == Some(stored_form(records[i])),
        forall|id: u64|
            (forall|i: int| 0 <= i < records.len() ==> (#[trigger] records[i]).id != id)
                ==> #[trigger] value_under(saved_all(s, records), key_bytes(id)) == value_under(
                s,
                key_bytes(id),
            ),
    decreases records.len(),
{
    if records.len() > 0 {
        let front = records.drop_last();
        let last = records.last();
        let mid = saved_all(s, front);
        assert(forall|i: int| 0 <= i < front.len() ==> front[i] == records[i]);
        lemma_distinct_saves_all_land(s, front);
        let key = key_bytes(last.id);
        assert(value_under(mid, key) == value_under(s, key)) by {
            assert(forall|i: int| 0 <= i < front.len() ==> (#[trigger] front[i]).id != last.id);
        }
        assert(!has_key(mid, key));
        lemma_save_length(mid, last);
        lemma_save_keeps_order(mid, last);
        lemma_with_entry_values(mid, key, stored_form(last), key);
        assert forall|i: int| 0 <= i < records.len() implies value_under(
            saved_all(s, records),
            key_bytes((#[trigger] records[i]).id),
        ) == Some(stored_form(records[i])) by {
            if i < front.len() {
                lemma_save_leaves_others(mid, last, records[i].id);
            }
        }
        assert forall|id: u64|
            (forall|i: int|
                0 <= i < records.len() ==> (#[trigger] records[i]).id != id) implies #[trigger] value_under(
            saved_all(s, records),
            key_bytes(id),
        ) == value_under(s, key_bytes(id)) by {
            assert(records[records.len() - 1].id != id);
            lemma_save_leaves_others(mid, last, id);
            assert(forall|i: int| 0 <= i < front.len() ==> (#[trigger] front[i]).id != id);
        }
    }
}

/// In a log in order and well keyed, the ids rise strictly from each record
/// to the next: no two records share an id, and the log walks its records in
/// the order of their ids.
pub proof fn lemma_ids_rise(s: Entries, i: int, j: int)
    requires
        ascending(s),
        well_keyed(s),
        0 <= i < j < s.len(),
    ensures
        record_of(s[i].1).unwrap().id < record_of(s[j].1).unwrap().id,
{
    lemma_key_order(record_of(s[i].1).unwrap().id, record_of(s[j].1).unwrap().id);
}

/// The ids fall strictly from each record of the list to the next.
pub open spec fn ids_fall(records: Seq<RecordView>) -> bool {
    forall|i: int, j: int|
        0 <= i < j < records.len() ==> (#[trigger] records[i]).id > (#[trigger] records[j]).id
}

/// A search finds only records that hold the keyword, every one of them a
/// record of the log, and leaves them in the order in which the log gave
/// them: where the ids of the log fall, so do the ids of what was found.
pub proof fn lemma_search_finds_only_matches(all: Seq<RecordView>, keyword: Seq<char>)
    ensures
        forall|i: int|
            0 <= i < all.filter(found_by(keyword)).len() ==> matches_keyword(
                #[trigger] all.filter(found_by(keyword))[i],
                keyword,
            ) && all.contains(all.filter(found_by(keyword))[i]),
        ids_fall(all) ==> ids_fall(all.filter(found_by(keyword))),
    decreases all.len(),
{
    let test = found_by(keyword);
    let found = all.filter(test);
    assert forall|i: int| 0 <= i < found.len() implies matches_keyword(#[trigger] found[i], keyword)
        && all.contains(found[i]) by {
        all.lemma_filter_pred(test, i);
        assert(found.contains(found[i]));
        all.lemma_filter_contains_rev(test, found[i]);
    }
    if all.len() > 0 && ids_fall(all) {
        let front = all.drop_last();
        let last = all.last();
        assert(all =~= front.push(last));
        front.lemma_filter_push(last, test);
        lemma_search_finds_only_matches(front, keyword);
        assert(ids_fall(front)) by {
            assert(forall|i: int| 0 <= i < front.len() ==> front[i] == all[i]);
        }
        let kept = front.filter(test);
        assert forall|i: int, j: int| 0 <= i < j < found.len() implies (#[trigger] found[i]).id
            > (#[trigger] found[j]).id by {
            if j < kept.len() {
                assert(found[i] == kept[i] && found[j] == kept[j]);
            } else {
                assert(found[i] == kept[i] && found[j] == last);
                assert(front.contains(kept[i]));
                let k = choose|k: int| 0 <= k < front.len() && front[k] == kept[i];
                assert(all[k].id > all[all.len() - 1].id);
            }
        }
    }
}

} // verus!
