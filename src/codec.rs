use vstd::prelude::*;
use std::io::Read;
use std::io::Write;
use crate::error::TransferError;
use vstd::utf8::encode_utf8;

verus! {

/// A JSON document as parsed by serde_json; opaque to the proofs.
#[verifier::external_type_specification]
#[verifier::external_body]
pub struct ExJsonValue(serde_json::Value);

/// The zlib stream (default level) of the UTF-8 bytes of a text.
pub uninterp spec fn zlib_compressed(text: Seq<char>) -> Seq<u8>;

/// The text that a zlib stream inflates to, or `None` when the bytes are not
/// a complete zlib stream of UTF-8 text.
pub uninterp spec fn zlib_inflated(data: Seq<u8>) -> Option<Seq<char>>;

/// Whether a text is one well-formed JSON document.
pub uninterp spec fn json_parses(text: Seq<char>) -> bool;

/// Relies on flate2's `ZlibEncoder` at the default level writing into a
/// vector: the result is the zlib stream of the text's bytes. Writes into a
/// vector never fail, and the default level's parameters are valid, so
/// neither `write_all` nor `finish` returns an error.
#[verifier::external_body]
fn zlib_compress(text: &str) -> (r: Option<Vec<u8>>)
    ensures
        r is Some,
        r matches Some(b) ==> b@ == zlib_compressed(text@),
{
    let mut encoder = flate2::write::ZlibEncoder::new(Vec::new(), flate2::Compression::default());
    if encoder.write_all(text.as_bytes()).is_err() {
        return None;
    }
    encoder.finish().ok()
}

/// Relies on flate2's `ZlibDecoder` read to the end into a `String`: the
/// inflated text, or an error on a truncated or malformed stream or on bytes
/// that are not UTF-8.
#[verifier::external_body]
fn zlib_decompress(data: &[u8]) -> (r: Option<String>)
    ensures
        r is Some <==> zlib_inflated(data@) is Some,
        r matches Some(s) ==> zlib_inflated(data@) == Some(s@),
{
    let mut decoder = flate2::read::ZlibDecoder::new(data);
    let mut text = String::new();
    match decoder.read_to_string(&mut text) {
        Ok(_) => Some(text),
        Err(_) => None,
    }
}

/// Relies on `serde_json::from_str::<Value>`: succeeds exactly on texts that
/// hold one JSON document.
#[verifier::external_body]
pub(crate) fn parse_json(text: &str) -> (r: Option<serde_json::Value>)
    ensures
        r is Some <==> json_parses(text@),
{
    serde_json::from_str::<serde_json::Value>(text).ok()
}

/// Relies on `serde_json::to_string` of a parsed document: its compact text.
/// A `Value` has string keys only and its `Serialize` never fails, so this
/// always succeeds.
#[verifier::external_body]
fn json_to_string(value: &serde_json::Value) -> (r: Option<String>)
    ensures
        r is Some,
{
    serde_json::to_string(value).ok()
}

/// Relies on `serde_json::to_vec` of a list of documents: a compact JSON
/// array, which opens and closes with a bracket. A `Value` has string keys
/// only and its `Serialize` never fails, so this always succeeds.
#[verifier::external_body]
pub(crate) fn json_array_bytes(items: &Vec<serde_json::Value>) -> (r: Option<Vec<u8>>)
    ensures
        r is Some,
        r matches Some(b) ==> b@.len() >= 2,
{
    serde_json::to_vec(items).ok()
}

/// Compresses a text with zlib; returns the bytes and their length.
pub fn compress_string(data: &str) -> (r: Result<(Vec<u8>, usize), TransferError>)
    ensures
        r matches Ok((b, n)) && b@ == zlib_compressed(data@) && n == b@.len(),
{
    match zlib_compress(data) {
        Some(compressed) => {
            let len = compressed.len();
            Ok((compressed, len))
        },
        None => Err(TransferError::PayloadError),
    }
}

/// Inflates a zlib stream into a text; returns the text and its length in
/// bytes. Fails with `DecodeError` on a truncated or malformed stream.
pub fn decompress_to_string(data: &[u8]) -> (r: Result<(String, usize), TransferError>)
    ensures
        r is Ok <==> zlib_inflated(data@) is Some,
        r matches Ok((s, n)) ==> zlib_inflated(data@) == Some(s@) && n == encode_utf8(s@).len() as usize,
        r is Err ==> r == Err::<(String, usize), TransferError>(TransferError::DecodeError),
{
    match zlib_decompress(data) {
        Some(text) => {
            let len = text.as_str().len();
            Ok((text, len))
        },
        None => Err(TransferError::DecodeError),
    }
}

/// Rewrites a JSON document in compact form. Fails with `PayloadError`
/// exactly when the text is not one JSON document.
pub fn compact_json(text: &str) -> (r: Result<String, TransferError>)
    ensures
        r is Ok <==> json_parses(text@),
        !json_parses(text@) ==> r == Err::<String, TransferError>(TransferError::PayloadError),
{
    match parse_json(text) {
        Some(value) => match json_to_string(&value) {
            Some(s) => Ok(s),
            None => Err(TransferError::PayloadError),
        },
        None => Err(TransferError::PayloadError),
    }
}

} // verus!
