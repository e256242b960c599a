use babysdcs::store::Cache;

#[test]
fn empty_store_has_nothing() {
    let c = Cache::new();
    assert_eq!(c.get("a"), None);
}

#[test]
fn set_then_get() {
    let mut c = Cache::new();
    c.set("a".to_string(), "1".to_string());
    c.set("b".to_string(), "\"two\"".to_string());
    assert_eq!(c.get("a"), Some("1".to_string()));
    assert_eq!(c.get("b"), Some("\"two\"".to_string()));
    assert_eq!(c.get("c"), None);
}

#[test]
fn set_overwrites() {
    let mut c = Cache::new();
    c.set("a".to_string(), "1".to_string());
    c.set("a".to_string(), "2".to_string());
    assert_eq!(c.get("a"), Some("2".to_string()));
    assert_eq!(c.delete("a"), 1);
    assert_eq!(c.get("a"), None);
}

#[test]
fn delete_counts_removals() {
    let mut c = Cache::new();
    c.set("a".to_string(), "1".to_string());
    c.set("b".to_string(), "2".to_string());
    assert_eq!(c.delete("a"), 1);
    assert_eq!(c.delete("a"), 0);
    assert_eq!(c.get("b"), Some("2".to_string()));
    assert_eq!(c.delete("never"), 0);
}

#[test]
fn writes_to_one_key_leave_the_last_value() {
    let mut c = Cache::new();
    c.set("other".to_string(), "0".to_string());
    let writes = ["1", "{\"x\":2}", "[3]", "\"four\""];
    for w in writes {
        c.set("k".to_string(), w.to_string());
    }
    assert_eq!(c.get("k"), Some("\"four\"".to_string()));
    assert!(writes.contains(&c.get("k").unwrap().as_str()));
    assert_eq!(c.get("other"), Some("0".to_string()));
}
