//! The capture and write-back pipeline: what travels through it, and the one
//! state that its two ends share.

pub mod listener;
pub mod utils;
pub mod writer;

use vstd::prelude::*;

verus! {

/// A capture that is on its way into the history: a text, or the path of an
/// image that was stored on disk.
#[derive(Debug)]
pub enum ClipboardEvent {
    Text(String),
    Image(String),
}

/// A request to put a past entry back on the clipboard: a text, or the path
/// of a stored image.
#[derive(Debug)]
pub enum CopyRequest {
    Text(String),
    Image(String),
}

/// The content that is believed to be on the clipboard, because it was the
/// last to be captured from it or the last to be written to it: a text, or
/// the fingerprint of an image's pixels.
#[derive(Debug)]
pub enum LastCopyState {
    Text(String),
    Image(u64),
}

/// What travels as an event or a request, as contracts speak of it.
pub enum Payload {
    Text(Seq<char>),
    Image(Seq<char>),
}

/// The last copy, as contracts speak of it.
pub enum LastCopy {
    Text(Seq<char>),
    Image(u64),
}

impl View for ClipboardEvent {
    type V = Payload;

    open spec fn view(&self) -> Payload {
        match self {
            ClipboardEvent::Text(text) => Payload::Text(text@),
            ClipboardEvent::Image(path) => Payload::Image(path@),
        }
    }
}

impl View for CopyRequest {
    type V = Payload;

    open spec fn view(&self) -> Payload {
        match self {
            CopyRequest::Text(text) => Payload::Text(text@),
            CopyRequest::Image(path) => Payload::Image(path@),
        }
    }
}

impl View for LastCopyState {
    type V = LastCopy;

    open spec fn view(&self) -> LastCopy {
        match self {
            LastCopyState::Text(text) => LastCopy::Text(text@),
            LastCopyState::Image(fingerprint) => LastCopy::Image(*fingerprint),
        }
    }
}

/// The last copy before anything was captured or written: the empty text.
pub open spec fn nothing_yet() -> LastCopy {
    LastCopy::Text(Seq::empty())
}

impl LastCopyState {
    /// The state at startup.
    pub fn empty() -> (state: Self)
        ensures
            state@ == nothing_yet(),
    {
        LastCopyState::Text(String::new())
    }

    /// Forgets the last copy, as when the history is cleared.
    pub fn clear(&mut self)
        ensures
            final(self)@ == nothing_yet(),
    {
        *self = LastCopyState::Text(String::new());
    }

    /// The last copy is this text.
    pub fn is_text(&self, text: &str) -> (same: bool)
        ensures
            same == (self@ == LastCopy::Text(text@)),
    {
        match self {
            LastCopyState::Text(last) => {
                let text = text.to_owned();
                *last == text
            },
            LastCopyState::Image(_) => false,
        }
    }

    /// The last copy is the image with this fingerprint.
    pub fn is_image(&self, fingerprint: u64) -> (same: bool)
        ensures
            same == (self@ == LastCopy::Image(fingerprint)),
    {
        match self {
            LastCopyState::Text(_) => false,
            LastCopyState::Image(last) => *last == fingerprint,
        }
    }
}

} // verus!
