use smarttype::hash::{file_hash, Fnv64};
use std::path::PathBuf;

#[test]
fn fnv1a_known_values() {
    let empty = Fnv64::new();
    assert_eq!(empty.finish_hex(), "cbf29ce484222325");
    let mut a = Fnv64::new();
    a.update(b"a");
    assert_eq!(a.finish_hex(), "af63dc4c8601ec8c");
}

#[test]
fn updates_compose() {
    let mut whole = Fnv64::new();
    whole.update(b"hello world");
    let mut parts = Fnv64::new();
    parts.update(b"hello");
    parts.update(b" world");
    assert_eq!(whole.finish_hex(), parts.finish_hex());
    assert_eq!(whole.finish_hex().len(), 16);
}

#[test]
fn hashes_are_deterministic() {
    let h1 = file_hash(PathBuf::from("a.txt"), b"hello world").hash_hex;
    let h2 = file_hash(PathBuf::from("b.txt"), b"hello world").hash_hex;
    assert_eq!(h1, h2);
    let r = file_hash(PathBuf::from("a.txt"), b"");
    assert_eq!(r.path, PathBuf::from("a.txt"));
    assert_eq!(r.hash_hex, "cbf29ce484222325");
}
