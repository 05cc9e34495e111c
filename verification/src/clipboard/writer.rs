//! The write-back side: what follows when a request to put a past entry back
//! on the clipboard has been tried.

use super::listener::{is_novel, ReadingView};
use super::{CopyRequest, LastCopy, LastCopyState, Payload};
use crate::repository::models::{texts, thumbnail_of, thumbnail_path};
use vstd::prelude::*;

verus! {

/// How the attempt to write a request to the clipboard ended.
#[derive(Debug, Clone, Copy, PartialEq, Eq, Structural)]
pub enum WriteOutcome {
    /// Nothing was written: the clipboard refused, or the image could not be read.
    Failed,
    /// The text of the request is on the clipboard.
    TextWritten,
    /// The image of the request is on the clipboard; this is the fingerprint
    /// of its pixels.
    ImageWritten(u64),
}

/// The write happened, and is the write that the request asked for.
pub open spec fn was_written(request: Payload, outcome: WriteOutcome) -> bool {
    match (request, outcome) {
        (Payload::Text(_), WriteOutcome::TextWritten) => true,
        (Payload::Image(_), WriteOutcome::ImageWritten(_)) => true,
        _ => false,
    }
}

/// The last copy after a request was tried: what was written where the write
/// happened, and otherwise what it was.
pub open spec fn after_write(last: LastCopy, request: Payload, outcome: WriteOutcome) -> LastCopy {
    match (request, outcome) {
        (Payload::Text(text), WriteOutcome::TextWritten) => LastCopy::Text(text),
        (Payload::Image(_), WriteOutcome::ImageWritten(fingerprint)) => LastCopy::Image(
            fingerprint,
        ),
        _ => last,
    }
}

/// The files that a request has used up once it was written: the image and
/// its thumbnail for an image, none for a text or where nothing was written.
pub open spec fn spent_files(request: Payload, outcome: WriteOutcome) -> Seq<Seq<char>> {
    match (request, outcome) {
        (Payload::Image(path), WriteOutcome::ImageWritten(_)) => seq![path, thumbnail_of(path)],
        _ => Seq::empty(),
    }
}

/// Settles a request after the attempt to write it. Where the write
/// happened, what was written becomes the last copy, so that its echo is not
/// captured, and the files that an image request has used up come back to be
/// removed. Where it did not, the last copy is left as it was, and no file is
/// to be removed. The caller holds the lock on the last copy for the call.
pub fn complete_write(last_copy: &mut LastCopyState, request: CopyRequest, outcome: WriteOutcome) -> (spent:
    Vec<String>)
    ensures
        final(last_copy)@ == after_write(old(last_copy)@, request@, outcome),
        texts(spent@) == spent_files(request@, outcome),
{
    let mut spent: Vec<String> = Vec::new();
    match request {
        CopyRequest::Text(text) => {
            match outcome {
                WriteOutcome::TextWritten => {
                    *last_copy = LastCopyState::Text(text);
                },
                _ => {},
            }
        },
        CopyRequest::Image(path) => {
            match outcome {
                WriteOutcome::ImageWritten(fingerprint) => {
                    *last_copy = LastCopyState::Image(fingerprint);
                    let thumb = thumbnail_path(path.as_str());
                    spent.push(path);
                    spent.push(thumb);
                },
                _ => {},
            }
        },
    }
    assert(texts(spent@) =~= spent_files(request@, outcome));
    spent
}

/// What the clipboard shows after a write happened: the text of a text
/// request, or the image with the fingerprint that the outcome names.
pub open spec fn echo_of(request: Payload, outcome: WriteOutcome) -> ReadingView {
    match (request, outcome) {
        (Payload::Text(text), WriteOutcome::TextWritten) => ReadingView::Text(text),
        (Payload::Image(_), WriteOutcome::ImageWritten(fingerprint)) => ReadingView::Image(
            fingerprint,
        ),
        _ => ReadingView::Unreadable,
    }
}

/// The echo of a write is not novel: when the monitor next reads what was
/// just written, it captures nothing.
pub proof fn lemma_echo_is_ignored(last: LastCopy, request: Payload, outcome: WriteOutcome)
    ensures
        !is_novel(after_write(last, request, outcome), echo_of(request, outcome)),
{
}

/// A write that failed changes nothing: what was novel before it is novel after it.
pub proof fn lemma_failed_write_hides_nothing(last: LastCopy, request: Payload, reading: ReadingView)
    ensures
        after_write(last, request, WriteOutcome::Failed) == last,
        is_novel(after_write(last, request, WriteOutcome::Failed), reading) == is_novel(
            last,
            reading,
        ),
{
}

} // verus!
