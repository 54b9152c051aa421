//! Shared route-handler pieces: the closed failure taxonomy the transport
//! layer consumes, the mapping of internal outcomes onto it, and the
//! `Last-Modified` header formatting.

use vstd::prelude::*;

use crate::bridge::BridgeError;
use crate::store::StoreError;

verus! {

/// The closed taxonomy of failures handed to the transport layer. Every
/// internal outcome maps to exactly one member; nothing else leaks out.
#[derive(Clone, Copy, Debug, PartialEq, Eq, Structural)]
pub enum Failure {
    /// The request itself was malformed: identifier or body failed to decode.
    BadRequest,
    /// No such record.
    NotFound,
    /// Reserved for resources with uniqueness conflicts; unused by the
    /// current three kinds.
    Conflict,
    /// Store error, I/O error, pool exhaustion or cancellation.
    Internal,
}

/// The HTTP status code for each taxonomy member. Total: every member has
/// exactly one code.
pub fn status_code(f: Failure) -> (c: u16)
    ensures
        c == (match f {
            Failure::BadRequest => 400u16,
            Failure::NotFound => 404u16,
            Failure::Conflict => 409u16,
            Failure::Internal => 500u16,
        }),
{
    match f {
        Failure::BadRequest => 400,
        Failure::NotFound => 404,
        Failure::Conflict => 409,
        Failure::Internal => 500,
    }
}

/// Normalizes the outcome of a bridged single-row lookup: a store miss is the
/// caller's `NotFound`; a backend failure or a cancelled bridge task collapse
/// into `Internal` without leaking detail.
pub fn find_error(e: BridgeError<StoreError>) -> (f: Failure)
    ensures
        f == (match e {
            BridgeError::Inner(StoreError::NotFound) => Failure::NotFound,
            _ => Failure::Internal,
        }),
{
    match e {
        BridgeError::Inner(StoreError::NotFound) => Failure::NotFound,
        BridgeError::Inner(StoreError::Backend) => Failure::Internal,
        BridgeError::Cancelled => Failure::Internal,
    }
}

/// Maps a direct (unbridged) store error: a miss is `NotFound`, anything else
/// is `Internal`.
pub fn store_failure(e: StoreError) -> (f: Failure)
    ensures
        f == (match e {
            StoreError::NotFound => Failure::NotFound,
            StoreError::Backend => Failure::Internal,
        }),
{
    match e {
        StoreError::NotFound => Failure::NotFound,
        StoreError::Backend => Failure::Internal,
    }
}

/// The RFC-1123-style `Last-Modified` rendering of a Unix timestamp, always
/// UTC. Determined by the timestamp alone.
pub uninterp spec fn http_date_of(ts: int) -> Seq<char>;

/// Formats a timestamp for the `Last-Modified` header.
///
/// Relies on chrono's `DateTime::<Utc>::from_timestamp` (total over the whole
/// `i32` range, far inside chrono's supported years) and `format` with the
/// fixed pattern `"%a, %d %b %Y %H:%M:%S GMT"`: the rendering is a pure
/// function of the timestamp.
#[verifier::external_body]
pub fn timestamp_to_last_modified(timestamp: i32) -> (r: String)
    ensures
        r@ == http_date_of(timestamp as int),
{
    let datetime = match chrono::DateTime::<chrono::Utc>::from_timestamp(timestamp as i64, 0) {
        Some(dt) => dt,
        None => return String::new(),
    };
    datetime.format("%a, %d %b %Y %H:%M:%S GMT").to_string()
}

} // verus!
