use filite::files::{BlobStore, PutFile};
use filite::filters::SelectQuery;
use filite::routes::Failure;

fn put_body(base64: &str, filename: &str) -> PutFile {
    PutFile { base64: base64.to_string(), filename: filename.to_string() }
}

#[test]
fn file_put_then_get_scenario() {
    // PUT /files/3 with a valid base64 payload, then GET /files/3 streams the
    // original bytes back.
    let mut blob = BlobStore::new();
    let rec = blob.put("3", put_body("aGVsbG8=", "a.txt"), 255).unwrap();
    assert_eq!(rec.id, 3);
    assert_eq!(rec.payload.filepath, "ff.a.txt");
    let bytes = blob.get("3").unwrap();
    assert_eq!(bytes, b"hello".to_vec());
}

#[test]
fn file_paths_are_distinct_per_write_time() {
    let mut blob = BlobStore::new();
    let first = blob.put("3", put_body("aGVsbG8=", "a.txt"), 255).unwrap();
    let second = blob.put("4", put_body("aGVsbG8=", "a.txt"), 256).unwrap();
    assert_ne!(first.payload.filepath, second.payload.filepath);
}

#[test]
fn file_invalid_base64_is_bad_request() {
    let mut blob = BlobStore::new();
    assert_eq!(blob.put("3", put_body("!!!", "a.txt"), 0).err(), Some(Failure::BadRequest));
    // nothing was stored
    assert_eq!(blob.get("3").err(), Some(Failure::NotFound));
}

#[test]
fn file_malformed_id_is_bad_request() {
    let mut blob = BlobStore::new();
    let before = blob.meta.calls();
    assert_eq!(blob.put("!!", put_body("aGVsbG8=", "a.txt"), 0).err(), Some(Failure::BadRequest));
    assert_eq!(blob.get("!!").err(), Some(Failure::BadRequest));
    assert_eq!(blob.delete("!!").err(), Some(Failure::BadRequest));
    assert_eq!(blob.meta.calls(), before);
}

#[test]
fn blob_atomicity_under_failure_injection() {
    // Force the metadata replace step to fail: after put returns its error,
    // the just-written blob must not remain under the root directory.
    let mut blob = BlobStore::new();
    blob.meta.inject_fault();
    assert_eq!(blob.put("3", put_body("aGVsbG8=", "a.txt"), 255).err(), Some(Failure::Internal));
    assert!(blob.dir.read(&"ff.a.txt".to_string()).is_none());
}

#[test]
fn file_missing_blob_despite_record_is_not_found() {
    // Simulates the content directory being emptied externally: the committed
    // record remains, yet GET answers NotFound.
    let mut blob = BlobStore::new();
    blob.put("3", put_body("aGVsbG8=", "a.txt"), 255).unwrap();
    blob.dir.remove(&"ff.a.txt".to_string());
    assert_eq!(blob.get("3").err(), Some(Failure::NotFound));
}

#[test]
fn file_delete_removes_record_and_blob() {
    let mut blob = BlobStore::new();
    blob.put("3", put_body("aGVsbG8=", "a.txt"), 255).unwrap();
    assert!(blob.delete("3").is_ok());
    assert_eq!(blob.get("3").err(), Some(Failure::NotFound));
    assert!(blob.dir.read(&"ff.a.txt".to_string()).is_none());
    assert_eq!(blob.delete("3").err(), Some(Failure::NotFound));
}

#[test]
fn file_list_pages() {
    let mut blob = BlobStore::new();
    blob.put("1", put_body("aGVsbG8=", "a.txt"), 1).unwrap();
    blob.put("2", put_body("aGVsbG8=", "b.txt"), 2).unwrap();
    let rows = blob.gets(SelectQuery { offset: None, limit: Some(1), asc: Some(false) }).unwrap();
    assert_eq!(rows.len(), 1);
    assert_eq!(rows[0].id, 2);
}
