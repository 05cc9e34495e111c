//! The fingerprint by which one image is told from another, and the name
//! under which an image is stored.

use crate::repository::models::{lemma_thumbnail_is_sibling, thumbnail_of};
use crate::text::{decimal, decimal_text};
use std::collections::hash_map::DefaultHasher;
use std::hash::Hasher;
use vstd::prelude::*;
use vstd::std_specs::hash::DefaultHasherAdditionalSpecFns;
use vstd::string::StringExecFns;

verus! {

/// The fingerprint of an image: what std's default hasher makes of its raw
/// pixel bytes, written in one piece.
pub open spec fn fingerprint_of(pixels: Seq<u8>) -> u64 {
    DefaultHasher::spec_finish(seq![pixels])
}

/// Computes the fingerprint of an image from its raw pixel bytes. The same
/// bytes always give the same fingerprint.
pub fn image_fingerprint(pixels: &[u8]) -> (fingerprint: u64)
    ensures
        fingerprint == fingerprint_of(pixels@),
{
    let mut hasher = DefaultHasher::new();
    hasher.write(pixels);
    assert(hasher@ =~= seq![pixels@]);
    hasher.finish()
}

/// The name of the file in which the image with this id is stored: the id
/// in decimal digits, and the ending `.png`.
pub open spec fn image_name_of(id: u64) -> Seq<char> {
    decimal(id as nat) + ".png"@
}

/// The name of the file in which the image with this id is stored. It ends
/// in `.png`, so that its thumbnail is named by the same id.
pub fn image_file_name(id: u64) -> (name: String)
    ensures
        name@ == image_name_of(id),
{
    decimal_text(id).concat(".png")
}

/// An image that is stored under its name in a directory has its thumbnail
/// in the same directory, under the same id.
pub proof fn lemma_image_has_its_thumbnail(dir: Seq<char>, id: u64)
    ensures
        thumbnail_of(dir + image_name_of(id)) == dir + decimal(id as nat) + "_thumb.png"@,
{
    let stem = dir + decimal(id as nat);
    lemma_thumbnail_is_sibling(stem);
    assert(dir + image_name_of(id) =~= stem + ".png"@);
}

} // verus!
