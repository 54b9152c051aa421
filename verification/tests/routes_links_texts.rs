use filite::bridge::BridgeError;
use filite::filters::SelectQuery;
use filite::links::{self, LinkPayload, PutLink};
use filite::routes::{find_error, status_code, store_failure, timestamp_to_last_modified, Failure};
use filite::store::{Store, StoreError};
use filite::texts::{self, PutText, TextPayload};

#[test]
fn status_codes_are_total() {
    assert_eq!(status_code(Failure::BadRequest), 400);
    assert_eq!(status_code(Failure::NotFound), 404);
    assert_eq!(status_code(Failure::Conflict), 409);
    assert_eq!(status_code(Failure::Internal), 500);
}

#[test]
fn find_error_mapping() {
    assert_eq!(find_error(BridgeError::Inner(StoreError::NotFound)), Failure::NotFound);
    assert_eq!(find_error(BridgeError::Inner(StoreError::Backend)), Failure::Internal);
    assert_eq!(find_error(BridgeError::Cancelled), Failure::Internal);
    assert_eq!(store_failure(StoreError::NotFound), Failure::NotFound);
    assert_eq!(store_failure(StoreError::Backend), Failure::Internal);
}

#[test]
fn last_modified_format() {
    assert_eq!(timestamp_to_last_modified(0), "Thu, 01 Jan 1970 00:00:00 GMT");
    assert_eq!(timestamp_to_last_modified(1234567890), "Fri, 13 Feb 2009 23:31:30 GMT");
}

#[test]
fn link_put_then_get_scenario() {
    // PUT /links/1 with a forward target, then GET /links/1: the redirect
    // target and the Last-Modified header value come back.
    let mut store: Store<LinkPayload> = Store::new();
    let body = PutLink { forward: "https://example.com".to_string() };
    let rec = links::put(&mut store, "1", body, 0).unwrap();
    assert_eq!(rec.id, 1);
    assert_eq!(rec.payload.forward, "https://example.com");
    assert_eq!(rec.created, 0);
    let reply = links::get(&mut store, "1").unwrap();
    assert_eq!(reply.location, "https://example.com");
    assert_eq!(reply.last_modified, "Thu, 01 Jan 1970 00:00:00 GMT");
}

#[test]
fn link_get_missing_is_not_found() {
    let mut store: Store<LinkPayload> = Store::new();
    assert_eq!(links::get(&mut store, "1").err(), Some(Failure::NotFound));
}

#[test]
fn malformed_id_never_reaches_the_store() {
    // GET /links/!! answers 400 while the store call counter stays put.
    let mut store: Store<LinkPayload> = Store::new();
    let before = store.calls();
    assert_eq!(links::get(&mut store, "!!").err(), Some(Failure::BadRequest));
    assert_eq!(links::put(&mut store, "!!", PutLink { forward: "x".to_string() }, 0).err(), Some(Failure::BadRequest));
    assert_eq!(links::delete(&mut store, "!!").err(), Some(Failure::BadRequest));
    assert_eq!(store.calls(), before);
    assert_eq!(status_code(Failure::BadRequest), 400);
}

#[test]
fn link_delete_consistency() {
    let mut store: Store<LinkPayload> = Store::new();
    links::put(&mut store, "2", PutLink { forward: "x".to_string() }, 5).unwrap();
    assert!(links::delete(&mut store, "2").is_ok());
    assert_eq!(links::get(&mut store, "2").err(), Some(Failure::NotFound));
    assert_eq!(links::delete(&mut store, "2").err(), Some(Failure::NotFound));
}

#[test]
fn link_store_fault_is_internal() {
    let mut store: Store<LinkPayload> = Store::new();
    store.inject_fault();
    assert_eq!(links::get(&mut store, "1").err(), Some(Failure::Internal));
    assert_eq!(links::put(&mut store, "1", PutLink { forward: "x".to_string() }, 0).err(), Some(Failure::Internal));
    assert_eq!(links::gets(&mut store, SelectQuery { offset: None, limit: None, asc: None }).err(), Some(Failure::Internal));
}

#[test]
fn link_list_pages() {
    let mut store: Store<LinkPayload> = Store::new();
    for (id, t) in [("1", 1), ("2", 2), ("3", 3)] {
        links::put(&mut store, id, PutLink { forward: "x".to_string() }, t).unwrap();
    }
    let q = SelectQuery { offset: Some(1), limit: Some(1), asc: Some(true) };
    let rows = links::gets(&mut store, q).unwrap();
    assert_eq!(rows.len(), 1);
    assert_eq!(rows[0].id, 2);
}

#[test]
fn text_put_then_get_scenario() {
    // PUT /texts/2z with contents, then GET /texts/2z: the raw body comes back.
    let mut store: Store<TextPayload> = Store::new();
    let body = PutText { contents: "hello".to_string(), highlight: false };
    let rec = texts::put(&mut store, "2z", body, 42).unwrap();
    assert_eq!(rec.id, 107);
    assert_eq!(rec.payload.contents, "hello");
    assert!(!rec.payload.highlight);
    let reply = texts::get(&mut store, "2z").unwrap();
    assert_eq!(reply.contents, "hello");
    assert_eq!(reply.last_modified, timestamp_to_last_modified(42));
}

#[test]
fn text_malformed_id_is_bad_request() {
    let mut store: Store<TextPayload> = Store::new();
    let before = store.calls();
    assert_eq!(texts::get(&mut store, "2Z").err(), Some(Failure::BadRequest));
    assert_eq!(store.calls(), before);
}

#[test]
fn text_delete_consistency() {
    let mut store: Store<TextPayload> = Store::new();
    texts::put(&mut store, "2z", PutText { contents: "a".to_string(), highlight: true }, 1).unwrap();
    assert!(texts::delete(&mut store, "2z").is_ok());
    assert_eq!(texts::get(&mut store, "2z").err(), Some(Failure::NotFound));
    assert_eq!(texts::delete(&mut store, "2z").err(), Some(Failure::NotFound));
}
