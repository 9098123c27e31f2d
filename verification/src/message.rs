//! The JSON bodies of the messages that the units exchange, and what they
//! decode to.
//!
//! Decoding is done by `serde_json`; what a body decodes to is named here
//! and the units are verified for every value that the name may take.
use vstd::prelude::*;

verus! {

/// `serde_json::Error`, the error of the decoders; opaque here.
#[verifier::external_type_specification]
#[verifier::external_body]
pub struct ExJsonError(serde_json::Error);

/// A body that did not decode to what was expected.
#[derive(Clone, Copy, Debug, PartialEq, Eq, Structural)]
pub enum MessageError {
    Malformed,
}

/// What a write request body `(rob_id, vbank_id, start_addr, data)`
/// decodes to, if it decodes.
pub uninterp spec fn json_write_request(body: Seq<char>) -> Option<(u64, u64, u64, Seq<u64>)>;

/// What a body holding a list of bank words decodes to, if it decodes.
pub uninterp spec fn json_words(body: Seq<char>) -> Option<Seq<u128>>;

/// What a bank write body `(vbank_id, start_addr, words)` decodes to, if
/// it decodes.
pub uninterp spec fn json_bank_write(body: Seq<char>) -> Option<(u64, u64, Seq<u128>)>;

/// What a body holding a list of 64-bit values decodes to, if it decodes.
pub uninterp spec fn json_u64s(body: Seq<char>) -> Option<Seq<u64>>;

/// What a body holding one 64-bit value decodes to, if it decodes.
pub uninterp spec fn json_u64(body: Seq<char>) -> Option<u64>;

/// Calls `serde_json::from_str::<u64>`; trusted to succeed exactly when
/// `json_u64` holds a value for the body, and then to give it.
#[verifier::external_body]
fn from_json_u64(body: &str) -> (r: Result<u64, serde_json::Error>)
    ensures
        r is Ok <==> json_u64(body@) is Some,
        r matches Ok(v) ==> json_u64(body@) == Some(v),
{
    serde_json::from_str::<u64>(body)
}

/// Calls `serde_json::from_str::<(u64, u64, u64, Vec<u64>)>`; trusted to
/// succeed exactly when `json_write_request` holds a value for the body,
/// and then to give that value.
#[verifier::external_body]
fn from_json_write_request(body: &str) -> (r: Result<(u64, u64, u64, Vec<u64>), serde_json::Error>)
    ensures
        r is Ok <==> json_write_request(body@) is Some,
        r matches Ok(v) ==> json_write_request(body@) == Some(v@),
{
    serde_json::from_str::<(u64, u64, u64, Vec<u64>)>(body)
}

/// Calls `serde_json::from_str::<Vec<u128>>`; trusted to succeed exactly
/// when `json_words` holds a value for the body, and then to give it.
#[verifier::external_body]
fn from_json_words(body: &str) -> (r: Result<Vec<u128>, serde_json::Error>)
    ensures
        r is Ok <==> json_words(body@) is Some,
        r matches Ok(v) ==> json_words(body@) == Some(v@),
{
    serde_json::from_str::<Vec<u128>>(body)
}

/// Calls `serde_json::from_str::<(u64, u64, Vec<u128>)>`; trusted to
/// succeed exactly when `json_bank_write` holds a value for the body, and
/// then to give it.
#[verifier::external_body]
fn from_json_bank_write(body: &str) -> (r: Result<(u64, u64, Vec<u128>), serde_json::Error>)
    ensures
        r is Ok <==> json_bank_write(body@) is Some,
        r matches Ok(v) ==> json_bank_write(body@) == Some(v@),
{
    serde_json::from_str::<(u64, u64, Vec<u128>)>(body)
}

/// Calls `serde_json::from_str::<Vec<u64>>`; trusted to succeed exactly
/// when `json_u64s` holds a value for the body, and then to give it.
#[verifier::external_body]
fn from_json_u64s(body: &str) -> (r: Result<Vec<u64>, serde_json::Error>)
    ensures
        r is Ok <==> json_u64s(body@) is Some,
        r matches Ok(v) ==> json_u64s(body@) == Some(v@),
{
    serde_json::from_str::<Vec<u64>>(body)
}

/// Decodes a write request body into `(rob_id, vbank_id, start_addr,
/// data)`.
pub fn decode_write_request(body: &String) -> (r: Result<(u64, u64, u64, Vec<u64>), MessageError>)
    ensures
        match json_write_request(body@) {
            Some(v) => r matches Ok(w) && w@ == v,
            None => r == Err::<(u64, u64, u64, Vec<u64>), MessageError>(MessageError::Malformed),
        },
{
    match from_json_write_request(body.as_str()) {
        Ok(v) => Ok(v),
        Err(_) => Err(MessageError::Malformed),
    }
}

/// Decodes a body holding a list of bank words.
pub fn decode_words(body: &String) -> (r: Result<Vec<u128>, MessageError>)
    ensures
        match json_words(body@) {
            Some(v) => r matches Ok(w) && w@ == v,
            None => r == Err::<Vec<u128>, MessageError>(MessageError::Malformed),
        },
{
    match from_json_words(body.as_str()) {
        Ok(v) => Ok(v),
        Err(_) => Err(MessageError::Malformed),
    }
}

/// Decodes a bank write body into `(vbank_id, start_addr, words)`.
pub fn decode_bank_write(body: &String) -> (r: Result<(u64, u64, Vec<u128>), MessageError>)
    ensures
        match json_bank_write(body@) {
            Some(v) => r matches Ok(w) && w@ == v,
            None => r == Err::<(u64, u64, Vec<u128>), MessageError>(MessageError::Malformed),
        },
{
    match from_json_bank_write(body.as_str()) {
        Ok(v) => Ok(v),
        Err(_) => Err(MessageError::Malformed),
    }
}

/// Decodes a body holding a list of 64-bit values.
pub fn decode_u64s(body: &String) -> (r: Result<Vec<u64>, MessageError>)
    ensures
        match json_u64s(body@) {
            Some(v) => r matches Ok(w) && w@ == v,
            None => r == Err::<Vec<u64>, MessageError>(MessageError::Malformed),
        },
{
    match from_json_u64s(body.as_str()) {
        Ok(v) => Ok(v),
        Err(_) => Err(MessageError::Malformed),
    }
}

/// Decodes a body holding one 64-bit value.
pub fn decode_u64(body: &String) -> (r: Result<u64, MessageError>)
    ensures
        match json_u64(body@) {
            Some(v) => r == Ok::<u64, MessageError>(v),
            None => r == Err::<u64, MessageError>(MessageError::Malformed),
        },
{
    match from_json_u64(body.as_str()) {
        Ok(v) => Ok(v),
        Err(_) => Err(MessageError::Malformed),
    }
}

} // verus!
