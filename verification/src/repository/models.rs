//! The records of the clipboard history.

use vstd::prelude::*;
use vstd::string::{StrSliceExecFns, StringExecFns};

verus! {

/// What kind of content a record holds.
#[derive(Debug, Clone, Copy, PartialEq, Eq, Structural)]
pub enum ContentType {
    /// Plain text
    Text,
    /// Image: the content is the path of the stored image file
    Image,
    /// File path
    FilePath,
}

/// The name under which a content type is stored.
pub open spec fn content_type_name(content_type: ContentType) -> Seq<char> {
    match content_type {
        ContentType::Text => "Text"@,
        ContentType::Image => "Image"@,
        ContentType::FilePath => "FilePath"@,
    }
}

/// The content type that a stored name stands for, if it stands for one.
pub open spec fn content_type_named(name: Seq<char>) -> Option<ContentType> {
    if name == "Text"@ {
        Some(ContentType::Text)
    } else if name == "Image"@ {
        Some(ContentType::Image)
    } else if name == "FilePath"@ {
        Some(ContentType::FilePath)
    } else {
        None
    }
}

/// Each content type is found again under its own name.
pub proof fn lemma_content_type_names(content_type: ContentType)
    ensures
        content_type_named(content_type_name(content_type)) == Some(content_type),
{
    reveal_strlit("Text");
    reveal_strlit("Image");
    reveal_strlit("FilePath");
    assert("Text"@.len() == 4);
    assert("Image"@.len() == 5);
    assert("FilePath"@.len() == 8);
}

impl ContentType {
    /// The name under which this content type is stored.
    pub fn name(&self) -> (name: &'static str)
        ensures
            name@ == content_type_name(*self),
    {
        match self {
            ContentType::Text => "Text",
            ContentType::Image => "Image",
            ContentType::FilePath => "FilePath",
        }
    }

    /// The content type stored under `name`; `None` for any other text.
    pub fn from_name(name: &str) -> (found: Option<ContentType>)
        ensures
            found == content_type_named(name@),
    {
        let name = String::from_str(name);
        if name == String::from_str("Text") {
            Some(ContentType::Text)
        } else if name == String::from_str("Image") {
            Some(ContentType::Image)
        } else if name == String::from_str("FilePath") {
            Some(ContentType::FilePath)
        } else {
            None
        }
    }
}

/// A moment on the wall clock: whole seconds since 1970-01-01 00:00:00 UTC
/// and the nanoseconds since the last full second.
#[derive(Debug, Clone, Copy, PartialEq, Eq, Structural)]
pub struct Timestamp {
    /// Seconds since the epoch; negative before it.
    pub seconds: i64,
    /// Nanoseconds since the last full second.
    pub subsec_nanos: u32,
}

/// One entry of the clipboard history.
#[derive(Debug, PartialEq)]
pub struct ClipboardRecord {
    /// Unique identifier (timestamp in nanoseconds)
    pub id: u64,
    /// Clipboard content: the text itself, or the path of the stored image
    pub content: String,
    /// Creation time
    pub created_at: Timestamp,
    /// Content type
    pub content_type: ContentType,
}

/// A record as contracts speak of it: its content is a sequence of characters.
pub struct RecordView {
    pub id: u64,
    pub content: Seq<char>,
    pub created_at: Timestamp,
    pub content_type: ContentType,
}

impl View for ClipboardRecord {
    type V = RecordView;

    open spec fn view(&self) -> RecordView {
        RecordView {
            id: self.id,
            content: self.content@,
            created_at: self.created_at,
            content_type: self.content_type,
        }
    }
}

impl Clone for ClipboardRecord {
    fn clone(&self) -> (copy: Self)
        ensures
            copy@ == self@,
    {
        ClipboardRecord {
            id: self.id,
            content: self.content.clone(),
            created_at: self.created_at,
            content_type: self.content_type,
        }
    }
}

/// The path ends in `.png`.
pub open spec fn ends_in_png(path: Seq<char>) -> bool {
    path.len() >= 4 && path.skip(path.len() - 4) == ".png"@
}

/// The path of the thumbnail that belongs to the image stored at `path`: a
/// file beside the image, named as the image with `_thumb.png` in place of
/// its ending `.png`, or after its name where it does not end so.
pub open spec fn thumbnail_of(path: Seq<char>) -> Seq<char> {
    if ends_in_png(path) {
        path.take(path.len() - 4) + "_thumb.png"@
    } else {
        path + "_thumb.png"@
    }
}

/// The thumbnail of an image file stands beside it under the same name:
/// whatever comes before the ending `.png` of the image, directory and
/// name, comes before the ending `_thumb.png` of the thumbnail, and the two
/// are never one file.
pub proof fn lemma_thumbnail_is_sibling(stem: Seq<char>)
    ensures
        ends_in_png(stem + ".png"@),
        thumbnail_of(stem + ".png"@) == stem + "_thumb.png"@,
        thumbnail_of(stem + ".png"@) != stem + ".png"@,
{
    reveal_strlit(".png");
    reveal_strlit("_thumb.png");
    let path = stem + ".png"@;
    assert(".png"@.len() == 4);
    assert(path.skip(path.len() - 4) =~= ".png"@);
    assert(path.take(path.len() - 4) =~= stem);
    assert((stem + "_thumb.png"@).len() == stem.len() + 10);
}

/// The files that belong to a record: for an image its file and the
/// thumbnail beside it, in this order; for any other record none.
pub open spec fn blob_files(record: RecordView) -> Seq<Seq<char>> {
    if record.content_type == ContentType::Image {
        seq![record.content, thumbnail_of(record.content)]
    } else {
        Seq::empty()
    }
}

/// The views of a list of texts.
pub open spec fn texts(list: Seq<String>) -> Seq<Seq<char>> {
    Seq::new(list.len(), |i: int| list[i]@)
}

/// The views of a list of records.
pub open spec fn views(list: Seq<ClipboardRecord>) -> Seq<RecordView> {
    Seq::new(list.len(), |i: int| list[i]@)
}

/// The path of the thumbnail that belongs to the image stored at `path`.
pub fn thumbnail_path(path: &str) -> (thumb: String)
    ensures
        thumb@ == thumbnail_of(path@),
{
    proof {
        reveal_strlit(".png");
        assert(".png"@.len() == 4);
    }
    let len = path.unicode_len();
    if len >= 4 && path.get_char(len - 4) == '.' && path.get_char(len - 3) == 'p' && path.get_char(
        len - 2,
    ) == 'n' && path.get_char(len - 1) == 'g' {
        assert(path@.skip(path@.len() - 4) =~= ".png"@);
        String::from_str(path.substring_char(0, len - 4)).concat("_thumb.png")
    } else {
        assert(!ends_in_png(path@)) by {
            if path@.len() >= 4 {
                let tail = path@.skip(path@.len() - 4);
                assert(tail[0] == path@[path@.len() - 4]);
                assert(tail[1] == path@[path@.len() - 3]);
                assert(tail[2] == path@[path@.len() - 2]);
                assert(tail[3] == path@[path@.len() - 1]);
            }
        }
        String::from_str(path).concat("_thumb.png")
    }
}

impl ClipboardRecord {
    /// The files that belong to this record and go when it goes.
    pub fn blob_paths(&self) -> (paths: Vec<String>)
        ensures
            texts(paths@) == blob_files(self@),
    {
        let mut paths: Vec<String> = Vec::new();
        if self.content_type == ContentType::Image {
            paths.push(self.content.clone());
            paths.push(thumbnail_path(self.content.as_str()));
        }
        assert(texts(paths@) =~= blob_files(self@));
        paths
    }
}

} // verus!
