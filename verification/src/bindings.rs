//! Declarations of the third-party types the engine carries around, and the
//! thin wrappers through which it calls third-party code.
//!
//! Nothing in this file is proved. Each wrapper states what the called
//! function is trusted to do; where that takes more than a few lines to say,
//! the result is given a name and the wrapper states that the call returns it.

use crate::ipc::sound_stream;
use vstd::prelude::*;

verus! {

#[verifier::external_type_specification]
#[verifier::external_body]
pub struct ExBytes(bytes::Bytes);

#[verifier::external_type_specification]
#[verifier::external_body]
pub struct ExArrowError(arrow::error::ArrowError);

#[verifier::external_type_specification]
#[verifier::external_body]
pub struct ExDecodeError(base64::DecodeError);

#[verifier::external_type_specification]
#[verifier::external_body]
pub struct ExJsonValue(serde_json::Value);

/// One decoded columnar batch, as `arrow` hands it out.
///
/// `arrow`'s `RecordBatch` cannot be declared to the verifier, because its
/// indexing hands out a trait object. A batch is therefore held in a struct
/// of this crate into which the verifier does not look; the field is public
/// so that callers get at the batch.
#[verifier::external_body]
#[derive(Debug)]
pub struct ArrowBatch {
    pub batch: arrow::record_batch::RecordBatch,
}

/// The bytes a buffer holds.
pub uninterp spec fn bytes_content(b: bytes::Bytes) -> Seq<u8>;

/// What reading `stream` as one Arrow IPC stream comes to: its batches in
/// stream order, or the error the reader stops with; `None` where the
/// reader does not return.
pub uninterp spec fn arrow_stream_batches(stream: Seq<u8>) -> Option<
    Result<Seq<ArrowBatch>, arrow::error::ArrowError>,
>;

/// The error with which the decoder refuses a stream, with this message.
pub uninterp spec fn arrow_ipc_error(message: Seq<char>) -> arrow::error::ArrowError;

/// What decoding `text` as padded, standard-alphabet base64 yields.
pub uninterp spec fn base64_standard_decode(text: Seq<char>) -> Result<
    Seq<u8>,
    base64::DecodeError,
>;

/// The elements of a JSON value that is an array, in order; `None` for any
/// other JSON value.
pub uninterp spec fn json_array_items(value: serde_json::Value) -> Option<Seq<serde_json::Value>>;

/// The elements of the JSON array that `text` spells; `None` where `text` is
/// not one JSON array.
pub uninterp spec fn json_text_items(text: Seq<char>) -> Option<Seq<serde_json::Value>>;

/// The text a JSON value is written as, without white space between its
/// parts.
pub uninterp spec fn json_text(value: serde_json::Value) -> Seq<char>;

/// The text that lossy UTF-8 decoding makes of `bytes`.
pub uninterp spec fn utf8_lossy_text(bytes: Seq<u8>) -> Seq<char>;

/// Whether the regular expression `pattern` finds a match in `text`; `None`
/// where `pattern` is not a regular expression.
pub uninterp spec fn regex_search(pattern: Seq<char>, text: Seq<char>) -> Option<bool>;

/// The upper-case form of `text`.
pub uninterp spec fn uppercase_text(text: Seq<char>) -> Seq<char>;

/// `bytes::Bytes::from`: the buffer holds exactly the bytes of `v`.
#[verifier::external_body]
pub(crate) fn bytes_from_vec(v: Vec<u8>) -> (b: bytes::Bytes)
    ensures
        bytes_content(b) == v@,
{
    bytes::Bytes::from(v)
}

/// `bytes::Bytes`'s `AsRef<[u8]>`: the bytes the buffer holds.
#[verifier::external_body]
pub(crate) fn bytes_as_slice(b: &bytes::Bytes) -> (s: &[u8])
    ensures
        s@ == bytes_content(*b),
{
    b.as_ref()
}

/// `bytes::Bytes::to_vec`: a copy of the bytes the buffer holds.
#[verifier::external_body]
pub(crate) fn bytes_to_vec(b: &bytes::Bytes) -> (v: Vec<u8>)
    ensures
        v@ == bytes_content(*b),
{
    b.to_vec()
}

/// `base64::Engine::decode` on the `STANDARD` engine.
#[verifier::external_body]
pub(crate) fn base64_decode(text: &str) -> (r: Result<Vec<u8>, base64::DecodeError>)
    ensures
        match (r, base64_standard_decode(text@)) {
            (Ok(v), Ok(s)) => v@ == s,
            (Err(e), Err(f)) => e == f,
            _ => false,
        },
{
    base64::Engine::decode(&base64::engine::general_purpose::STANDARD, text)
}

/// `arrow::ipc::reader::StreamReader` run to the end of the buffer: every
/// batch of the stream in order, or the first error.
///
/// The reader is written to answer a malformed stream with an error, but it
/// does not return on every stream. It cuts the buffers of a batch out of
/// the body of its message by the offsets and lengths that the message
/// lists, and asserts that they lie inside the body; and it builds the
/// arrays of a batch with constructors that assert the sizes of their
/// buffers. The first is left out by a check of this crate: the stream has
/// to be sound, which `crate::ipc::is_sound_stream` decides. Whatever else
/// there is cannot be told from the bytes by anything short of the reader,
/// and is left out by name: the reader has to return on the stream.
#[verifier::external_body]
pub(crate) fn bytes_to_batches(bytes: &bytes::Bytes) -> (r: Result<
    Vec<ArrowBatch>,
    arrow::error::ArrowError,
>)
    requires
        sound_stream(bytes_content(*bytes)),
        arrow_stream_batches(bytes_content(*bytes)) is Some,
    ensures
        match (r, arrow_stream_batches(bytes_content(*bytes))) {
            (Ok(v), Some(Ok(s))) => v@ == s,
            (Err(e), Some(Err(f))) => e == f,
            _ => false,
        },
{
    let reader = arrow::ipc::reader::StreamReader::try_new(bytes::Buf::reader(bytes.clone()), None)?;
    reader.into_iter().map(|b| b.map(|batch| ArrowBatch { batch })).collect()
}

/// `arrow::error::ArrowError::IpcError`: the error of that kind with this
/// message.
#[verifier::external_body]
pub(crate) fn ipc_error(message: &str) -> (e: arrow::error::ArrowError)
    ensures
        e == arrow_ipc_error(message@),
{
    arrow::error::ArrowError::IpcError(message.to_owned())
}

/// `serde_json::from_value` into a vector of values: the elements of an
/// array, nothing for any other value.
#[verifier::external_body]
pub(crate) fn json_into_items(value: serde_json::Value) -> (r: Option<Vec<serde_json::Value>>)
    ensures
        match (r, json_array_items(value)) {
            (Some(v), Some(s)) => v@ == s,
            (None, None) => true,
            _ => false,
        },
{
    serde_json::from_value::<Vec<serde_json::Value>>(value).ok()
}

/// `serde_json::from_str` into a vector of values.
#[verifier::external_body]
pub(crate) fn json_parse_items(text: &str) -> (r: Option<Vec<serde_json::Value>>)
    ensures
        match (r, json_text_items(text@)) {
            (Some(v), Some(s)) => v@ == s,
            (None, None) => true,
            _ => false,
        },
{
    serde_json::from_str::<Vec<serde_json::Value>>(text).ok()
}

/// `serde_json::Value::Array`: the array value whose elements are `items`.
#[verifier::external_body]
pub(crate) fn json_from_items(items: Vec<serde_json::Value>) -> (value: serde_json::Value)
    ensures
        json_array_items(value) == Some(items@),
{
    serde_json::Value::Array(items)
}

/// `serde_json::Value`'s `Display`: the compact text of the value.
#[verifier::external_body]
pub(crate) fn json_to_text(value: &serde_json::Value) -> (text: String)
    ensures
        text@ == json_text(*value),
{
    value.to_string()
}

/// `String::from_utf8_lossy`, as an owned string.
#[verifier::external_body]
pub(crate) fn utf8_lossy(bytes: &[u8]) -> (text: String)
    ensures
        text@ == utf8_lossy_text(bytes@),
{
    String::from_utf8_lossy(bytes).into_owned()
}

/// `regex::Regex::new` followed by `regex::Regex::is_match`.
#[verifier::external_body]
pub(crate) fn regex_is_match(pattern: &str, text: &str) -> (r: Option<bool>)
    ensures
        r == regex_search(pattern@, text@),
{
    match regex::Regex::new(pattern) {
        Ok(re) => Some(re.is_match(text)),
        Err(_) => None,
    }
}

/// `str::to_uppercase`.
#[verifier::external_body]
pub(crate) fn to_uppercase(text: &str) -> (upper: String)
    ensures
        upper@ == uppercase_text(text@),
{
    text.to_uppercase()
}

} // verus!
