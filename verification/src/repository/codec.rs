//! The stored form of a record: one JSON array of its five fields.

use super::errors::RepositoryError;
use super::models::{
    content_type_name, content_type_named, lemma_content_type_names, ClipboardRecord, ContentType,
    RecordView, Timestamp,
};
use vstd::prelude::*;
use vstd::string::StringExecFns;

verus! {

#[verifier::external_type_specification]
#[verifier::external_body]
pub struct ExJsonError(serde_json::Error);

/// The JSON text that `serde_json::to_vec` writes for the tuple of an id, a
/// content, the name of a content type, and the two numbers of a timestamp.
pub uninterp spec fn json_text(
    id: u64,
    content: Seq<char>,
    kind: Seq<char>,
    seconds: i64,
    subsec_nanos: u32,
) -> Seq<u8>;

/// The tuple that `serde_json::from_slice` reads from a JSON text; `None`
/// where it reads no such tuple.
pub uninterp spec fn json_fields(bytes: Seq<u8>) -> Option<(u64, Seq<char>, Seq<char>, i64, u32)>;

/// `serde_json::to_vec` on a tuple of an integer, two texts and two more
/// integers. The contract claims that the call succeeds: it writes integers
/// and texts into a vector, and neither the writing nor the vector can fail.
/// It names the bytes that come back and claims one thing of them that was
/// not proved: read again by `serde_json::from_slice`, they give the same
/// five values.
#[verifier::external_body]
fn to_json(id: u64, content: &str, kind: &str, seconds: i64, subsec_nanos: u32) -> (r: Result<
    Vec<u8>,
    serde_json::Error,
>)
    ensures
        r is Ok,
        r matches Ok(bytes) ==> bytes@ == json_text(id, content@, kind@, seconds, subsec_nanos)
            && json_fields(bytes@) == Some((id, content@, kind@, seconds, subsec_nanos)),
{
    serde_json::to_vec(&(id, content, kind, seconds, subsec_nanos))
}

/// `serde_json::from_slice` for a tuple of an integer, two texts and two more
/// integers. The contract names what comes back: the call succeeds exactly
/// where [`json_fields`] is `Some`, and then returns those values.
#[verifier::external_body]
fn from_json(bytes: &[u8]) -> (r: Result<(u64, String, String, i64, u32), serde_json::Error>)
    ensures
        match r {
            Ok(f) => json_fields(bytes@) == Some((f.0, f.1@, f.2@, f.3, f.4)),
            Err(_) => json_fields(bytes@) is None,
        },
{
    serde_json::from_slice::<(u64, String, String, i64, u32)>(bytes)
}

/// The `Display` text of a `serde_json::Error`.
#[verifier::external_body]
fn json_error_text(e: &serde_json::Error) -> String {
    e.to_string()
}

/// The bytes under which a record is stored.
pub open spec fn stored_form(record: RecordView) -> Seq<u8> {
    json_text(
        record.id,
        record.content,
        content_type_name(record.content_type),
        record.created_at.seconds,
        record.created_at.subsec_nanos,
    )
}

/// The record that stored bytes stand for; `None` where they are no JSON
/// array of the five fields, or name no content type.
pub open spec fn record_of(bytes: Seq<u8>) -> Option<RecordView> {
    match json_fields(bytes) {
        Some(f) => match content_type_named(f.2) {
            Some(content_type) => Some(
                RecordView {
                    id: f.0,
                    content: f.1,
                    created_at: Timestamp { seconds: f.3, subsec_nanos: f.4 },
                    content_type,
                },
            ),
            None => None,
        },
        None => None,
    }
}

/// Turns a record into the bytes under which it is stored. Every record
/// has a stored form, and the bytes read back as the same record.
pub fn encode_record(record: &ClipboardRecord) -> (r: Result<Vec<u8>, RepositoryError>)
    ensures
        r is Ok,
        r matches Ok(bytes) ==> bytes@ == stored_form(record@) && record_of(bytes@) == Some(
            record@,
        ),
{
    proof {
        lemma_content_type_names(record.content_type);
    }
    match to_json(
        record.id,
        record.content.as_str(),
        record.content_type.name(),
        record.created_at.seconds,
        record.created_at.subsec_nanos,
    ) {
        Ok(bytes) => Ok(bytes),
        Err(e) => Err(RepositoryError::Serialization(json_error_text(&e))),
    }
}

/// Makes a record of the five fields that were read from stored bytes.
/// Fails exactly where the name of the content type names none.
pub fn record_from_fields(
    id: u64,
    content: String,
    kind: &str,
    seconds: i64,
    subsec_nanos: u32,
) -> (r: Result<ClipboardRecord, RepositoryError>)
    ensures
        match content_type_named(kind@) {
            Some(content_type) => r matches Ok(record) && record@ == (RecordView {
                id,
                content: content@,
                created_at: Timestamp { seconds, subsec_nanos },
                content_type,
            }),
            None => r matches Err(e) && e is Deserialization,
        },
{
    match ContentType::from_name(kind) {
        Some(content_type) => Ok(
            ClipboardRecord {
                id,
                content,
                created_at: Timestamp { seconds, subsec_nanos },
                content_type,
            },
        ),
        None => Err(
            RepositoryError::Deserialization(
                String::from_str("unknown content type: ").concat(kind),
            ),
        ),
    }
}

/// Reads a record from stored bytes. Fails exactly on bytes that stand for no record.
pub fn decode_record(bytes: &[u8]) -> (r: Result<ClipboardRecord, RepositoryError>)
    ensures
        match r {
            Ok(record) => record_of(bytes@) == Some(record@),
            Err(e) => e is Deserialization && record_of(bytes@) is None,
        },
{
    match from_json(bytes) {
        Ok((id, content, kind, seconds, subsec_nanos)) => record_from_fields(
            id,
            content,
            kind.as_str(),
            seconds,
            subsec_nanos,
        ),
        Err(e) => Err(RepositoryError::Deserialization(json_error_text(&e))),
    }
}

} // verus!
