//! Text-snippet resource: same boundary discipline as the link resource —
//! decode the identifier first, reach the text store through its contract,
//! shape the outcome for the transport layer.

use vstd::prelude::*;

use crate::codec;
use crate::filters::{self, SelectQuery};
use crate::routes::{http_date_of, Failure};
use crate::store::{self, Payload, Record, Store};

verus! {

/// What a text row stores: the contents and whether to highlight them.
pub struct TextPayload {
    /// The snippet itself.
    pub contents: String,
    /// Whether the snippet is rendered with syntax highlighting.
    pub highlight: bool,
}

impl Payload for TextPayload {
    fn dup(&self) -> (r: Self) {
        TextPayload { contents: self.contents.clone(), highlight: self.highlight }
    }
}

/// Request body when PUTting texts.
pub struct PutText {
    /// The snippet itself.
    pub contents: String,
    /// Whether the snippet is rendered with syntax highlighting.
    pub highlight: bool,
}

/// A found text, shaped for the response: the raw contents and the formatted
/// `Last-Modified` header value.
pub struct TextReply {
    /// Raw body contents.
    pub contents: String,
    /// Formatted `Last-Modified` header value.
    pub last_modified: String,
}

/// GET a text entry: yields the raw contents and `Last-Modified` value. A
/// malformed identifier is rejected before any store call.
pub fn get(store: &mut Store<TextPayload>, path: &str) -> (r: Result<TextReply, Failure>)
    requires
        old(store).inv(),
    ensures
        final(store).inv(),
        final(store)@ == old(store)@,
        final(store).faulted() == old(store).faulted(),
        !codec::valid_id_str(path@) ==> (r matches Err(f) && f == Failure::BadRequest && *final(store) == *old(store)),
        codec::valid_id_str(path@) ==> {
            let id = codec::base36_val(path@);
            match r {
                Ok(reply) => !old(store).faulted() && (store::lookup(old(store)@, id) matches Some(rec)
                    && reply.contents@ == rec.payload.contents@ && reply.last_modified@
                    == http_date_of(rec.created as int)),
                Err(f) => (old(store).faulted() && f == Failure::Internal) || (!old(store).faulted() && f == Failure::NotFound && store::lookup(old(store)@, id) is None),
            }
        },
{
    let id = match codec::decode(path) {
        Ok(id) => id,
        Err(_) => {
            return Err(Failure::BadRequest);
        },
    };
    match store.find(id) {
        Ok(rec) => {
            let last_modified = crate::routes::timestamp_to_last_modified(rec.created);
            Ok(TextReply { contents: rec.payload.contents, last_modified })
        },
        Err(e) => Err(crate::routes::store_failure(e)),
    }
}

/// PUT a new text entry: creates or fully overwrites the row under the
/// decoded identifier. A malformed identifier is rejected before any store
/// call.
pub fn put(store: &mut Store<TextPayload>, path: &str, body: PutText, now: i32) -> (r: Result<
    Record<TextPayload>,
    Failure,
>)
    requires
        old(store).inv(),
    ensures
        final(store).inv(),
        final(store).faulted() == old(store).faulted(),
        !codec::valid_id_str(path@) ==> (r matches Err(f) && f == Failure::BadRequest && *final(store) == *old(store)),
        codec::valid_id_str(path@) ==> {
            let id = codec::base36_val(path@);
            match r {
                Ok(rec) => !old(store).faulted() && rec.id as int == id && rec.payload
                    == (TextPayload { contents: body.contents, highlight: body.highlight })
                    && rec.created == now && store::replaced(
                    old(store)@,
                    final(store)@,
                    id,
                    rec.payload,
                    now as int,
                ),
                Err(f) => old(store).faulted() && f == Failure::Internal && final(store)@ == old(store)@,
            }
        },
{
    let id = match codec::decode(path) {
        Ok(id) => id,
        Err(_) => {
            return Err(Failure::BadRequest);
        },
    };
    match store.replace(id, TextPayload { contents: body.contents, highlight: body.highlight }, now) {
        Ok(rec) => Ok(rec),
        Err(e) => Err(crate::routes::store_failure(e)),
    }
}

/// DELETE a text entry. Deleting an absent identifier reports `NotFound`; a
/// malformed identifier is rejected before any store call.
pub fn delete(store: &mut Store<TextPayload>, path: &str) -> (r: Result<(), Failure>)
    requires
        old(store).inv(),
    ensures
        final(store).inv(),
        final(store).faulted() == old(store).faulted(),
        !codec::valid_id_str(path@) ==> (r matches Err(f) && f == Failure::BadRequest && *final(store) == *old(store)),
        codec::valid_id_str(path@) ==> {
            let id = codec::base36_val(path@);
            match r {
                Ok(()) => !old(store).faulted() && store::lookup(old(store)@, id) is Some
                    && store::deleted(old(store)@, final(store)@, id),
                Err(f) => (old(store).faulted() && f == Failure::Internal && final(store)@ == old(store)@) || (!old(store).faulted() && f == Failure::NotFound && store::lookup(
                    old(store)@,
                    id,
                ) is None && final(store)@ == old(store)@),
            }
        },
{
    let id = match codec::decode(path) {
        Ok(id) => id,
        Err(_) => {
            return Err(Failure::BadRequest);
        },
    };
    match store.delete(id) {
        Ok(()) => Ok(()),
        Err(e) => Err(crate::routes::store_failure(e)),
    }
}

/// GET multiple text entries: a bounded, ordered page. Missing or oversized
/// parameters are defaulted or clamped, never rejected.
pub fn gets(store: &mut Store<TextPayload>, query: SelectQuery) -> (r: Result<
    Vec<Record<TextPayload>>,
    Failure,
>)
    requires
        old(store).inv(),
    ensures
        final(store).inv(),
        final(store)@ == old(store)@,
        final(store).faulted() == old(store).faulted(),
        old(store).faulted() ==> (r matches Err(f) && f == Failure::Internal),
        !old(store).faulted() ==> (r matches Ok(v) && v@ == store::page(
            old(store)@,
            filters::composed(query),
        ) && v@.len() <= crate::MAX_PAGE_SIZE),
{
    let f = crate::filters::SelectFilters::from(query);
    match store.select(f) {
        Ok(v) => Ok(v),
        Err(_) => Err(Failure::Internal),
    }
}

} // verus!
