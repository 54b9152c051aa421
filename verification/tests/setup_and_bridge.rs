use filite::bridge::Bridge;
use filite::filters::{SelectFilters, SelectQuery};
use filite::setup::{get_config_path, get_password_path, hash, resolve_files_dir, Config};
use filite::MAX_PAGE_SIZE;

#[test]
fn config_paths_are_joined() {
    assert_eq!(get_config_path("/etc/app"), "/etc/app/config.toml");
    assert_eq!(get_password_path("/etc/app"), "/etc/app/passwd");
}

#[test]
fn config_defaults() {
    let c = Config::defaults("/var/lib/app", 8);
    assert_eq!(c.port, 8080);
    assert_eq!(c.database_url, "/var/lib/app/database.db");
    assert_eq!(c.pool_size, 4);
    assert_eq!(c.files_dir, "/var/lib/app/files");
    assert_eq!(c.max_filesize, 10_000_000);
    assert_eq!(c.cert_privkey, "cert.pem");
    assert_eq!(c.cert_chain, "chain.pem");
    assert!(!c.use_ssl);
}

#[test]
fn config_pool_size_is_at_least_one() {
    assert_eq!(Config::defaults("/d", 0).pool_size, 1);
    assert_eq!(Config::defaults("/d", 1).pool_size, 1);
    assert_eq!(Config::defaults("/d", 2).pool_size, 1);
    assert_eq!(Config::defaults("/d", 3).pool_size, 1);
    assert_eq!(Config::defaults("/d", 4).pool_size, 2);
}

#[test]
fn files_dir_resolution() {
    assert_eq!(resolve_files_dir("/abs/files", "/data"), "/abs/files");
    assert_eq!(resolve_files_dir("files", "/data"), "/data/files");
    assert_eq!(resolve_files_dir("", "/data"), "/data/");
}

#[test]
fn password_hash_is_a_real_digest() {
    let h = hash(b"abc");
    assert_eq!(h.len(), 64);
    assert_ne!(h, b"abc".to_vec());
    assert_ne!(hash(b"abc"), hash(b"abd"));
    assert_eq!(hash(b"abc"), hash(b"abc"));
    assert_eq!(hash(b"").len(), 64);
}

#[test]
fn filters_default_and_clamp() {
    let f = SelectFilters::from(SelectQuery { offset: None, limit: None, asc: None });
    assert_eq!(f.offset, 0);
    assert_eq!(f.limit, MAX_PAGE_SIZE);
    assert!(f.asc);
    let g = SelectFilters::from(SelectQuery { offset: Some(7), limit: Some(usize::MAX), asc: Some(false) });
    assert_eq!(g.offset, 7);
    assert_eq!(g.limit, MAX_PAGE_SIZE);
    assert!(!g.asc);
    let h = SelectFilters::from(SelectQuery { offset: None, limit: Some(10), asc: None });
    assert_eq!(h.limit, 10);
}

#[test]
fn bridge_bounds_concurrency() {
    let mut b = Bridge::new(2);
    b.submit();
    b.submit();
    assert_eq!(b.running, 2);
    assert_eq!(b.queued, 0);
    b.submit();
    assert_eq!(b.running, 2);
    assert_eq!(b.queued, 1);
    b.finish();
    assert_eq!(b.running, 2);
    assert_eq!(b.queued, 0);
    b.finish();
    b.finish();
    assert_eq!(b.running, 0);
}
