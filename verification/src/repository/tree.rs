//! The ordered log underneath the history store: a `sled` tree, and what this
//! library takes for granted of it.
//!
//! Nothing in this file is proved. Each function makes one call into `sled`
//! and states what that call does to the entries of the tree, as the source
//! of `sled` shows it for a tree that only this handle writes to. Where a
//! call fails, `sled` may or may not have made the change already, and the
//! contracts say so. `sled` gives up a walk with a panic after a million steps
//! without progress, which it takes only while other writers keep moving the
//! tree underneath; no contract here speaks of that.

use super::order::{ascending, has_key, lex_le, lex_lt, with_entry, without_key, Entries};
use vstd::prelude::*;

verus! {

#[verifier::external_type_specification]
#[verifier::external_body]
pub struct ExDb(sled::Db);

#[verifier::external_type_specification]
#[verifier::external_body]
pub struct ExTree(sled::Tree);

#[verifier::external_type_specification]
#[verifier::external_body]
pub struct ExSledError(sled::Error);

/// What a tree holds: its entries, in the order in which it walks them.
pub uninterp spec fn tree_entries(tree: sled::Tree) -> Entries;

/// `sled::open`: opens the database in the directory `path`, creating it
/// where there is none. Nothing is claimed of the outcome.
#[verifier::external_body]
pub(crate) fn open_db(path: &std::path::PathBuf) -> Result<sled::Db, sled::Error> {
    sled::open(path)
}

/// `sled::Db::open_tree`: opens the tree of this name, creating it where
/// there is none. The contract claims that the entries of a tree stand in
/// rising order of their keys, compared byte by byte.
#[verifier::external_body]
pub(crate) fn open_tree(db: &sled::Db, name: &str) -> (r: Result<sled::Tree, sled::Error>)
    ensures
        r matches Ok(tree) ==> ascending(tree_entries(tree)),
{
    db.open_tree(name)
}

/// `sled::Tree::insert`. On success the tree holds `value` under `key`, in
/// place of what stood there, and everything else as before. On failure it
/// holds either that or what it held before.
#[verifier::external_body]
pub(crate) fn tree_insert(tree: &mut sled::Tree, key: &[u8], value: Vec<u8>) -> (r: Result<
    (),
    sled::Error,
>)
    ensures
        ascending(tree_entries(*final(tree))),
        tree_entries(*final(tree)) == with_entry(tree_entries(*old(tree)), key@, value@) || (r is Err
            && tree_entries(*final(tree)) == tree_entries(*old(tree))),
{
    tree.insert(key, value).map(|_| ())
}

/// `sled::Tree::get`. On success the value under `key` comes back, or `None`
/// where no entry stands under `key`.
#[verifier::external_body]
pub(crate) fn tree_get(tree: &sled::Tree, key: &[u8]) -> (r: Result<Option<Vec<u8>>, sled::Error>)
    ensures
        r matches Ok(found) ==> match found {
            Some(value) => tree_entries(*tree).contains((key@, value@)),
            None => !has_key(tree_entries(*tree), key@),
        },
{
    tree.get(key).map(|found| found.map(|value| value.to_vec()))
}

/// `sled::Tree::remove`. On success the entry under `key` is gone and its
/// value comes back, or `None` where there was no such entry. On failure the
/// tree holds either that or what it held before.
#[verifier::external_body]
pub(crate) fn tree_remove(tree: &mut sled::Tree, key: &[u8]) -> (r: Result<
    Option<Vec<u8>>,
    sled::Error,
>)
    ensures
        ascending(tree_entries(*final(tree))),
        tree_entries(*final(tree)) == without_key(tree_entries(*old(tree)), key@) || (r is Err
            && tree_entries(*final(tree)) == tree_entries(*old(tree))),
        r matches Ok(gone) ==> match gone {
            Some(value) => tree_entries(*old(tree)).contains((key@, value@)),
            None => !has_key(tree_entries(*old(tree)), key@),
        },
{
    tree.remove(key).map(|gone| gone.map(|value| value.to_vec()))
}

/// `sled::Tree::first`. On success the first entry comes back, or `None`
/// where the tree is empty.
#[verifier::external_body]
pub(crate) fn tree_first(tree: &sled::Tree) -> (r: Result<Option<(Vec<u8>, Vec<u8>)>, sled::Error>)
    ensures
        r matches Ok(found) ==> match found {
            Some(entry) => tree_entries(*tree).len() > 0 && tree_entries(*tree).first() == (
                entry.0@,
                entry.1@,
            ),
            None => tree_entries(*tree).len() == 0,
        },
{
    tree.first().map(|found| found.map(|(key, value)| (key.to_vec(), value.to_vec())))
}

/// `sled::Tree::last`. On success the last entry comes back, or `None` where
/// the tree is empty.
#[verifier::external_body]
pub(crate) fn tree_last(tree: &sled::Tree) -> (r: Result<Option<(Vec<u8>, Vec<u8>)>, sled::Error>)
    ensures
        r matches Ok(found) ==> match found {
            Some(entry) => tree_entries(*tree).len() > 0 && tree_entries(*tree).last() == (
                entry.0@,
                entry.1@,
            ),
            None => tree_entries(*tree).len() == 0,
        },
{
    tree.last().map(|found| found.map(|(key, value)| (key.to_vec(), value.to_vec())))
}

/// `sled::Tree::get_lt`. On success the entry with the greatest key that
/// sorts before `key` comes back, or `None` where no key sorts before `key`.
#[verifier::external_body]
pub(crate) fn tree_get_lt(tree: &sled::Tree, key: &[u8]) -> (r: Result<
    Option<(Vec<u8>, Vec<u8>)>,
    sled::Error,
>)
    ensures
        r matches Ok(found) ==> match found {
            Some(entry) => {
                &&& tree_entries(*tree).contains((entry.0@, entry.1@))
                &&& lex_lt(entry.0@, key@)
                &&& forall|i: int|
                    0 <= i < tree_entries(*tree).len() && lex_lt(
                        (#[trigger] tree_entries(*tree)[i]).0,
                        key@,
                    ) ==> lex_le(tree_entries(*tree)[i].0, entry.0@)
            },
            None => forall|i: int|
                0 <= i < tree_entries(*tree).len() ==> !lex_lt(
                    (#[trigger] tree_entries(*tree)[i]).0,
                    key@,
                ),
        },
{
    tree.get_lt(key).map(|found| found.map(|(key, value)| (key.to_vec(), value.to_vec())))
}

/// `sled::Tree::get_gt`. On success the entry with the least key that sorts
/// after `key` comes back, or `None` where no key sorts after `key`.
#[verifier::external_body]
pub(crate) fn tree_get_gt(tree: &sled::Tree, key: &[u8]) -> (r: Result<
    Option<(Vec<u8>, Vec<u8>)>,
    sled::Error,
>)
    ensures
        r matches Ok(found) ==> match found {
            Some(entry) => {
                &&& tree_entries(*tree).contains((entry.0@, entry.1@))
                &&& lex_lt(key@, entry.0@)
                &&& forall|i: int|
                    0 <= i < tree_entries(*tree).len() && lex_lt(
                        key@,
                        (#[trigger] tree_entries(*tree)[i]).0,
                    ) ==> lex_le(entry.0@, tree_entries(*tree)[i].0)
            },
            None => forall|i: int|
                0 <= i < tree_entries(*tree).len() ==> !lex_lt(
                    key@,
                    (#[trigger] tree_entries(*tree)[i]).0,
                ),
        },
{
    tree.get_gt(key).map(|found| found.map(|(key, value)| (key.to_vec(), value.to_vec())))
}

/// `sled::Tree::clear`, which removes the entries one after the other. On
/// success the tree is empty. On failure some entries are gone and the others
/// are as before.
#[verifier::external_body]
pub(crate) fn tree_clear(tree: &mut sled::Tree) -> (r: Result<(), sled::Error>)
    ensures
        ascending(tree_entries(*final(tree))),
        r is Ok ==> tree_entries(*final(tree)).len() == 0,
        forall|i: int|
            0 <= i < tree_entries(*final(tree)).len() ==> tree_entries(*old(tree)).contains(
                #[trigger] tree_entries(*final(tree))[i],
            ),
{
    tree.clear()
}

/// `sled::Db::flush`: writes what is pending to disk. Nothing is claimed of
/// the outcome; the entries of a tree are not touched.
#[verifier::external_body]
pub(crate) fn db_flush(db: &sled::Db) -> Result<(), sled::Error> {
    db.flush().map(|_| ())
}

/// The `Display` text of a `sled::Error`.
#[verifier::external_body]
pub(crate) fn sled_error_text(e: &sled::Error) -> String {
    e.to_string()
}

} // verus!
