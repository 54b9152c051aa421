//! Redirect-link resource: handlers decode the public identifier at the
//! boundary, reach the link store through its contract, and shape the
//! outcome for the transport layer. A malformed identifier never reaches the
//! store.

use vstd::prelude::*;

use crate::codec;
use crate::filters::{self, SelectQuery};
use crate::routes::{http_date_of, Failure};
use crate::store::{self, Payload, Record, Store};

verus! {

/// What a link row stores: the redirect target.
pub struct LinkPayload {
    /// Target URL the public identifier forwards to.
    pub forward: String,
}

impl Payload for LinkPayload {
    fn dup(&self) -> (r: Self) {
        LinkPayload { forward: self.forward.clone() }
    }
}

/// Request body when PUTting links.
pub struct PutLink {
    /// Target URL the link shall forward to.
    pub forward: String,
}

/// A found link, shaped for the redirect response: the `Location` target and
/// the formatted `Last-Modified` header value.
pub struct LinkReply {
    /// Redirect target.
    pub location: String,
    /// Formatted `Last-Modified` header value.
    pub last_modified: String,
}

/// GET a link entry: yields the redirect target and `Last-Modified` value. A
/// malformed identifier is rejected before any store call.
pub fn get(store: &mut Store<LinkPayload>, path: &str) -> (r: Result<LinkReply, Failure>)
    requires
        old(store).inv(),
    ensures
        final(store).inv(),
        final(store)@ == old(store)@,
        final(store).faulted() == old(store).faulted(),
        !codec::valid_id_str(path@) ==> (r matches Err(f) && f == Failure::BadRequest && *final(store) == *old(store)),
        codec::valid_id_str(path@) ==> {
            let id = codec::base36_val(path@);
            match r {
                Ok(reply) => !old(store).faulted() && (store::lookup(old(store)@, id) matches Some(rec)
                    && reply.location@ == rec.payload.forward@ && reply.last_modified@
                    == http_date_of(rec.created as int)),
                Err(f) => (old(store).faulted() && f == Failure::Internal) || (!old(store).faulted() && f == Failure::NotFound && store::lookup(old(store)@, id) is None),
            }
        },
{
    let id = match codec::decode(path) {
        Ok(id) => id,
        Err(_) => {
            return Err(Failure::BadRequest);
        },
    };
    match store.find(id) {
        Ok(rec) => {
            let last_modified = crate::routes::timestamp_to_last_modified(rec.created);
            Ok(LinkReply { location: rec.payload.forward, last_modified })
        },
        Err(e) => Err(crate::routes::store_failure(e)),
    }
}

/// PUT a new link entry: creates or fully overwrites the row under the
/// decoded identifier. A malformed identifier is rejected before any store
/// call.
pub fn put(store: &mut Store<LinkPayload>, path: &str, body: PutLink, now: i32) -> (r: Result<
    Record<LinkPayload>,
    Failure,
>)
    requires
        old(store).inv(),
    ensures
        final(store).inv(),
        final(store).faulted() == old(store).faulted(),
        !codec::valid_id_str(path@) ==> (r matches Err(f) && f == Failure::BadRequest && *final(store) == *old(store)),
        codec::valid_id_str(path@) ==> {
            let id = codec::base36_val(path@);
            match r {
                Ok(rec) => !old(store).faulted() && rec.id as int == id && rec.payload
                    == (LinkPayload { forward: body.forward }) && rec.created == now
                    && store::replaced(old(store)@, final(store)@, id, rec.payload, now as int),
                Err(f) => old(store).faulted() && f == Failure::Internal && final(store)@ == old(store)@,
            }
        },
{
    let id = match codec::decode(path) {
        Ok(id) => id,
        Err(_) => {
            return Err(Failure::BadRequest);
        },
    };
    match store.replace(id, LinkPayload { forward: body.forward }, now) {
        Ok(rec) => Ok(rec),
        Err(e) => Err(crate::routes::store_failure(e)),
    }
}

/// DELETE a link entry. Deleting an absent identifier reports `NotFound`; a
/// malformed identifier is rejected before any store call.
pub fn delete(store: &mut Store<LinkPayload>, path: &str) -> (r: Result<(), Failure>)
    requires
        old(store).inv(),
    ensures
        final(store).inv(),
        final(store).faulted() == old(store).faulted(),
        !codec::valid_id_str(path@) ==> (r matches Err(f) && f == Failure::BadRequest && *final(store) == *old(store)),
        codec::valid_id_str(path@) ==> {
            let id = codec::base36_val(path@);
            match r {
                Ok(()) => !old(store).faulted() && store::lookup(old(store)@, id) is Some
                    && store::deleted(old(store)@, final(store)@, id),
                Err(f) => (old(store).faulted() && f == Failure::Internal && final(store)@ == old(store)@) || (!old(store).faulted() && f == Failure::NotFound && store::lookup(
                    old(store)@,
                    id,
                ) is None && final(store)@ == old(store)@),
            }
        },
{
    let id = match codec::decode(path) {
        Ok(id) => id,
        Err(_) => {
            return Err(Failure::BadRequest);
        },
    };
    match store.delete(id) {
        Ok(()) => Ok(()),
        Err(e) => Err(crate::routes::store_failure(e)),
    }
}

/// GET multiple link entries: a bounded, ordered page. Missing or oversized
/// parameters are defaulted or clamped, never rejected.
pub fn gets(store: &mut Store<LinkPayload>, query: SelectQuery) -> (r: Result<
    Vec<Record<LinkPayload>>,
    Failure,
>)
    requires
        old(store).inv(),
    ensures
        final(store).inv(),
        final(store)@ == old(store)@,
        final(store).faulted() == old(store).faulted(),
        old(store).faulted() ==> (r matches Err(f) && f == Failure::Internal),
        !old(store).faulted() ==> (r matches Ok(v) && v@ == store::page(
            old(store)@,
            filters::composed(query),
        ) && v@.len() <= crate::MAX_PAGE_SIZE),
{
    let f = crate::filters::SelectFilters::from(query);
    match store.select(f) {
        Ok(v) => Ok(v),
        Err(_) => Err(Failure::Internal),
    }
}

} // verus!
