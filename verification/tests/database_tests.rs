use tapi::database::{
    copy_entry, is_not_earlier, show_time, DatabaseManager, HashEntry, Timestamp,
};

fn at(secs: i64) -> Timestamp {
    Timestamp { secs, nanos: 0 }
}

fn entry(hash: &str, name: &str, folder: &str, time: Option<Timestamp>) -> HashEntry {
    HashEntry {
        hash: hash.to_string(),
        name: name.to_string(),
        folder: folder.to_string(),
        created_at: time,
    }
}

#[test]
fn save_then_get_name() {
    let mut db = DatabaseManager::new();
    assert_eq!(db.get_name("h1"), None);
    db.save_hash("h1".into(), "one.png".into(), "ch1".into(), at(10));
    assert_eq!(db.get_name("h1"), Some("one.png".to_string()));
    assert!(db.contains("h1"));
    assert!(!db.contains("h2"));
    assert_eq!(db.len(), 1);
}

#[test]
fn a_second_write_replaces_the_first() {
    let mut db = DatabaseManager::new();
    db.save_hash("h1".into(), "old.png".into(), "a".into(), at(10));
    db.save_hash("h2".into(), "two.png".into(), "a".into(), at(11));
    db.save_hash("h1".into(), "new.png".into(), "b".into(), at(12));
    assert_eq!(db.len(), 2);
    assert_eq!(db.get_name("h1"), Some("new.png".to_string()));
    let rows = db.select_all();
    assert_eq!(rows[0].hash, "h1");
    assert_eq!(rows[0].folder, "b");
    assert_eq!(rows[0].created_at, Some(at(12)));
    assert_eq!(rows[1].hash, "h2");
}

#[test]
fn delete_and_clear() {
    let mut db = DatabaseManager::new();
    db.save_hash("h1".into(), "1".into(), "f".into(), at(1));
    db.save_hash("h2".into(), "2".into(), "f".into(), at(2));
    db.save_hash("h3".into(), "3".into(), "f".into(), at(3));
    db.delete_hash("h2");
    db.delete_hash("missing");
    assert_eq!(db.hashes(), vec!["h1", "h3"]);
    db.clear_all();
    assert_eq!(db.len(), 0);
    assert_eq!(db.get_name("h1"), None);
}

#[test]
fn list_all_is_sorted_from_the_latest_to_the_earliest() {
    let db = DatabaseManager::from_entries(&vec![
        entry("a", "a", "f", Some(at(100))),
        entry("b", "b", "f", None),
        entry("c", "c", "f", Some(at(300))),
        entry("d", "d", "f", Some(at(100))),
        entry("e", "e", "f", Some(Timestamp { secs: 300, nanos: 5 })),
        entry("f", "f", "f", None),
    ]);
    let listed: Vec<String> = db.list_all().into_iter().map(|e| e.hash).collect();
    assert_eq!(listed, vec!["e", "c", "a", "d", "b", "f"]);
}

#[test]
fn times_are_written_as_rfc3339() {
    let db = DatabaseManager::from_entries(&vec![
        entry("a", "a.png", "ch", Some(at(1431648000))),
        entry("b", "b.png", "ch", None),
        entry("c", "c.png", "ch", Some(Timestamp { secs: 0, nanos: 500_000_000 })),
        entry("d", "d.png", "ch", Some(Timestamp { secs: i64::MAX, nanos: 0 })),
    ]);
    let listed = db.list_all();
    assert_eq!(listed[0].hash, "d");
    assert_eq!(listed[0].created_at, "");
    assert_eq!(listed[1].created_at, "2015-05-15T00:00:00+00:00");
    assert_eq!(listed[1].name, "a.png");
    assert_eq!(listed[1].folder, "ch");
    assert_eq!(listed[2].created_at, "1970-01-01T00:00:00.500+00:00");
    assert_eq!(listed[3].created_at, "");
    assert_eq!(show_time(None), "");
    assert_eq!(show_time(Some("x".to_string())), "x");
}

#[test]
fn time_order() {
    assert!(is_not_earlier(&Some(at(2)), &Some(at(1))));
    assert!(is_not_earlier(&Some(at(2)), &Some(at(2))));
    assert!(!is_not_earlier(&Some(at(1)), &Some(at(2))));
    assert!(is_not_earlier(&Some(at(1)), &None));
    assert!(is_not_earlier(&None, &None));
    assert!(!is_not_earlier(&None, &Some(at(1))));
    assert!(is_not_earlier(
        &Some(Timestamp { secs: 1, nanos: 2 }),
        &Some(Timestamp { secs: 1, nanos: 1 })
    ));
}

#[test]
fn push_then_pull_makes_both_stores_equal() {
    let mut a = DatabaseManager::from_entries(&vec![
        entry("h1", "a-one", "a", Some(at(1))),
        entry("h2", "a-two", "a", Some(at(20))),
    ]);
    let mut b = DatabaseManager::from_entries(&vec![
        entry("h2", "b-two", "b", Some(at(2))),
        entry("h3", "b-three", "b", Some(at(3))),
    ]);
    a.push_to_remote(&mut b);
    a.pull_from_remote(&b);
    for db in [&a, &b] {
        assert_eq!(db.len(), 3);
        assert_eq!(db.get_name("h1"), Some("a-one".to_string()));
        assert_eq!(db.get_name("h2"), Some("a-two".to_string()));
        assert_eq!(db.get_name("h3"), Some("b-three".to_string()));
    }
    let mut a_hashes = a.hashes();
    let mut b_hashes = b.hashes();
    a_hashes.sort();
    b_hashes.sort();
    assert_eq!(a_hashes, vec!["h1", "h2", "h3"]);
    assert_eq!(a_hashes, b_hashes);
    let in_b = b.select_all();
    let two = in_b.iter().find(|e| e.hash == "h2").unwrap();
    assert_eq!((two.folder.as_str(), two.created_at), ("a", Some(at(20))));
}

#[test]
fn upsert_all_writes_in_order() {
    let mut db = DatabaseManager::new();
    db.upsert_all(&vec![
        entry("x", "first", "f", None),
        entry("y", "y", "f", None),
        entry("x", "second", "g", Some(at(5))),
    ]);
    assert_eq!(db.len(), 2);
    assert_eq!(db.get_name("x"), Some("second".to_string()));
    let copy = copy_entry(&db.select_all()[0]);
    assert_eq!((copy.hash.as_str(), copy.folder.as_str()), ("x", "g"));
}

#[test]
fn what_is_saved_is_listed() {
    let mut db = DatabaseManager::new();
    db.save_hash("h1".into(), "one.png".into(), "ch1".into(), at(10));
    let listed = db.list_all();
    assert_eq!(listed.len(), 1);
    assert_eq!((listed[0].hash.as_str(), listed[0].name.as_str()), ("h1", "one.png"));
    assert_eq!(db.hashes(), vec!["h1"]);
    db.save_hash("h2".into(), "two.png".into(), "ch1".into(), at(20));
    db.save_hash("h1".into(), "uno.png".into(), "ch1".into(), at(30));
    assert_eq!(db.hashes(), vec!["h1", "h2"]);
    let listed: Vec<(String, String)> =
        db.list_all().into_iter().map(|e| (e.hash, e.name)).collect();
    assert_eq!(
        listed,
        vec![("h1".to_string(), "uno.png".to_string()), ("h2".to_string(), "two.png".to_string())]
    );
    db.delete_hash("h1");
    assert_eq!(db.hashes(), vec!["h2"]);
    assert_eq!(db.list_all().len(), 1);
}
