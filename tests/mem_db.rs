use smarttype::mem_db::Database;

#[test]
fn insert_and_get() {
    let mut db = Database::new();
    db.insert("user", "ferris");
    assert_eq!(db.get("user"), Some("ferris".into()));
    assert_eq!(db.stats().inserts, 1);
    assert_eq!(db.stats().lookups, 1);
}

#[test]
fn delete_updates_stats() {
    let mut db = Database::new();
    db.insert("temp", "value");
    assert!(db.delete("temp"));
    assert!(!db.delete("missing"));
    let stats = db.stats();
    assert_eq!(stats.deletes, 1);
}

#[test]
fn overwrite_keeps_one_key() {
    let mut db = Database::new();
    db.insert("k", "1");
    db.insert("k", "2");
    db.insert("j", "3");
    assert_eq!(db.get("k"), Some("2".to_string()));
    assert_eq!(db.get("absent"), None);
    let mut keys = db.keys();
    keys.sort();
    assert_eq!(keys, vec!["j".to_string(), "k".to_string()]);
    assert_eq!(db.stats().lookups, 2);
    assert_eq!(db.stats().inserts, 3);
}
