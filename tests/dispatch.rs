use rget::{file_name_for_hash, hash_file_name, DownloadJob, DownloadPool};
use std::hash::{DefaultHasher, Hash, Hasher};

fn job(u: &str) -> DownloadJob {
    DownloadJob { url: u.to_string(), file_name: hash_file_name(u.to_string()) }
}

#[test]
fn hex_file_names() {
    assert_eq!(file_name_for_hash(0), "0");
    assert_eq!(file_name_for_hash(255), "ff");
    assert_eq!(file_name_for_hash(0x1a2b), "1a2b");
    assert_eq!(file_name_for_hash(u64::MAX), "ffffffffffffffff");
}

#[test]
fn file_name_is_hex_of_default_hash() {
    let url = "https://example.org/index.html".to_string();
    let mut h = DefaultHasher::new();
    url.hash(&mut h);
    let expected = format!("{:x}", h.finish());
    assert_eq!(hash_file_name(url.clone()), expected);
    assert_eq!(hash_file_name(url.clone()), hash_file_name(url));
    assert_ne!(hash_file_name("a".to_string()), hash_file_name("b".to_string()));
}

#[test]
fn pool_respects_capacity() {
    let mut pool = DownloadPool::new(2);
    for u in ["u1", "u2", "u3"] {
        pool.submit(job(u));
    }
    assert_eq!(pool.next_job().unwrap().url, "u1");
    assert_eq!(pool.next_job().unwrap().url, "u2");
    assert!(!pool.has_room());
    assert_eq!(pool.running(), 2);
    assert!(pool.next_job().is_none());
    pool.complete(Ok(()));
    assert!(pool.has_room());
    assert_eq!(pool.next_job().unwrap().url, "u3");
    assert!(pool.next_job().is_none());
    assert!(!pool.is_idle());
    pool.complete(Ok(()));
    pool.complete(Ok(()));
    assert!(pool.is_idle());
    assert_eq!(pool.into_result(), Ok(()));
}

#[test]
fn pool_keeps_first_failure() {
    let mut pool = DownloadPool::new(3);
    for u in ["a", "b", "c"] {
        pool.submit(job(u));
    }
    while pool.next_job().is_some() {}
    pool.complete(Ok(()));
    pool.complete(Err("b failed".to_string()));
    pool.complete(Err("c failed".to_string()));
    assert!(pool.is_idle());
    assert_eq!(pool.into_result(), Err("b failed".to_string()));
}

#[test]
fn empty_pool_is_idle() {
    let mut pool = DownloadPool::new(1);
    assert!(pool.is_idle());
    assert!(pool.next_job().is_none());
    assert_eq!(pool.into_result(), Ok(()));
}
