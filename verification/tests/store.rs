use filite::filters::{SelectFilters, SelectQuery};
use filite::links::LinkPayload;
use filite::store::{Store, StoreError};
use filite::MAX_PAGE_SIZE;

fn link(forward: &str) -> LinkPayload {
    LinkPayload { forward: forward.to_string() }
}

#[test]
fn find_missing_is_not_found() {
    let mut s: Store<LinkPayload> = Store::new();
    assert!(matches!(s.find(1), Err(StoreError::NotFound)));
}

#[test]
fn replace_then_find() {
    let mut s: Store<LinkPayload> = Store::new();
    let rec = s.replace(7, link("https://example.com"), 100).unwrap();
    assert_eq!(rec.id, 7);
    assert_eq!(rec.payload.forward, "https://example.com");
    assert_eq!(rec.created, 100);
    let found = s.find(7).unwrap();
    assert_eq!(found.id, 7);
    assert_eq!(found.payload.forward, "https://example.com");
    assert_eq!(found.created, 100);
}

#[test]
fn replace_idempotent_in_effect() {
    // Same payload twice: the same logical record stays retrievable, while
    // the created timestamp advances with the later write.
    let mut s: Store<LinkPayload> = Store::new();
    s.replace(7, link("https://example.com"), 100).unwrap();
    s.replace(7, link("https://example.com"), 200).unwrap();
    let found = s.find(7).unwrap();
    assert_eq!(found.id, 7);
    assert_eq!(found.payload.forward, "https://example.com");
    assert_eq!(found.created, 200);
    assert_eq!(s.select(SelectFilters::from(SelectQuery { offset: None, limit: None, asc: None })).unwrap().len(), 1);
}

#[test]
fn replace_overwrites_payload() {
    let mut s: Store<LinkPayload> = Store::new();
    s.replace(7, link("https://one.example"), 100).unwrap();
    s.replace(7, link("https://two.example"), 150).unwrap();
    let found = s.find(7).unwrap();
    assert_eq!(found.payload.forward, "https://two.example");
    assert_eq!(found.created, 150);
}

#[test]
fn delete_then_find_misses_and_second_delete_misses() {
    let mut s: Store<LinkPayload> = Store::new();
    s.replace(3, link("x"), 1).unwrap();
    assert!(s.delete(3).is_ok());
    assert!(matches!(s.find(3), Err(StoreError::NotFound)));
    assert!(matches!(s.delete(3), Err(StoreError::NotFound)));
}

#[test]
fn select_orders_by_id_ascending_by_default() {
    let mut s: Store<LinkPayload> = Store::new();
    for id in [5, 1, 9, 3] {
        s.replace(id, link("x"), 0).unwrap();
    }
    let q = SelectQuery { offset: None, limit: None, asc: None };
    let rows = s.select(SelectFilters::from(q)).unwrap();
    let ids: Vec<i32> = rows.iter().map(|r| r.id).collect();
    assert_eq!(ids, vec![1, 3, 5, 9]);
}

#[test]
fn select_descending_offset_and_limit() {
    let mut s: Store<LinkPayload> = Store::new();
    for id in 1..=6 {
        s.replace(id, link("x"), 0).unwrap();
    }
    let q = SelectQuery { offset: Some(1), limit: Some(2), asc: Some(false) };
    let rows = s.select(SelectFilters::from(q)).unwrap();
    let ids: Vec<i32> = rows.iter().map(|r| r.id).collect();
    assert_eq!(ids, vec![5, 4]);
}

#[test]
fn select_never_exceeds_page_cap() {
    let mut s: Store<LinkPayload> = Store::new();
    let total = (MAX_PAGE_SIZE + 100) as i32;
    for id in 0..total {
        s.replace(id, link("x"), 0).unwrap();
    }
    let q = SelectQuery { offset: Some(0), limit: Some(usize::MAX), asc: Some(true) };
    let rows = s.select(SelectFilters::from(q)).unwrap();
    assert_eq!(rows.len(), MAX_PAGE_SIZE);
}

#[test]
fn select_past_the_end_is_empty() {
    let mut s: Store<LinkPayload> = Store::new();
    s.replace(1, link("x"), 0).unwrap();
    let q = SelectQuery { offset: Some(10), limit: Some(10), asc: None };
    let rows = s.select(SelectFilters::from(q)).unwrap();
    assert!(rows.is_empty());
}

#[test]
fn injected_fault_fails_every_operation() {
    let mut s: Store<LinkPayload> = Store::new();
    s.replace(1, link("x"), 0).unwrap();
    s.inject_fault();
    assert!(matches!(s.find(1), Err(StoreError::Backend)));
    assert!(matches!(s.replace(2, link("y"), 1), Err(StoreError::Backend)));
    assert!(matches!(s.delete(1), Err(StoreError::Backend)));
    let q = SelectQuery { offset: None, limit: None, asc: None };
    assert!(matches!(s.select(SelectFilters::from(q)), Err(StoreError::Backend)));
}

#[test]
fn store_counts_calls() {
    let mut s: Store<LinkPayload> = Store::new();
    assert_eq!(s.calls(), 0);
    let _ = s.replace(1, link("x"), 0);
    let _ = s.find(1);
    let _ = s.delete(1);
    assert_eq!(s.calls(), 3);
}
