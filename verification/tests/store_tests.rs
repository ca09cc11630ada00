use kvstore::codec::{load_data, save_data};
use kvstore::store::Store;

#[test]
fn get_unwritten_key_is_absent() {
    let store = Store::new();
    assert_eq!(store.get(&"missing".to_string()), None);
}

#[test]
fn get_other_key_stays_absent_after_set() {
    let mut store = Store::new();
    assert!(store.set("written".to_string(), "1".to_string()));
    assert_eq!(store.get(&"never-written".to_string()), None);
}

#[test]
fn set_then_get_returns_value() {
    let mut store = Store::new();
    assert!(store.set("alpha".to_string(), "one".to_string()));
    assert_eq!(store.get(&"alpha".to_string()), Some("one".to_string()));
}

#[test]
fn set_overwrites_existing_value() {
    let mut store = Store::new();
    assert!(store.set("alpha".to_string(), "one".to_string()));
    assert!(store.set("alpha".to_string(), "two".to_string()));
    assert_eq!(store.get(&"alpha".to_string()), Some("two".to_string()));
}

#[test]
fn set_twice_matches_set_once() {
    let mut once = Store::new();
    assert!(once.set("k".to_string(), "v".to_string()));

    let mut twice = Store::new();
    assert!(twice.set("k".to_string(), "v".to_string()));
    assert!(twice.set("k".to_string(), "v".to_string()));

    assert_eq!(once.get(&"k".to_string()), twice.get(&"k".to_string()));
    assert_eq!(once.get(&"other".to_string()), twice.get(&"other".to_string()));
    assert_eq!(twice.get(&"k".to_string()), Some("v".to_string()));
}

#[test]
fn snapshot_round_trip_after_set() {
    let mut store = Store::new();
    assert!(store.set("game".to_string(), "chess".to_string()));
    assert!(store.set("players".to_string(), "2".to_string()));

    let text = save_data(&store).expect("encoding a string map succeeds");
    let reloaded = load_data(Some(&text));

    assert_eq!(reloaded.get(&"game".to_string()), Some("chess".to_string()));
    assert_eq!(reloaded.get(&"players".to_string()), Some("2".to_string()));
    assert_eq!(reloaded.get(&"absent".to_string()), None);
}

#[test]
fn load_data_absent_yields_empty() {
    let store = load_data(None);
    assert_eq!(store.get(&"anything".to_string()), None);
}

#[test]
fn load_data_corrupt_yields_empty() {
    let store = load_data(Some("this is not a snapshot"));
    assert_eq!(store.get(&"anything".to_string()), None);
}

#[test]
fn load_data_parses_snapshot_text() {
    let store = load_data(Some("{\"a\": \"1\", \"b\": \"2\"}"));
    assert_eq!(store.get(&"a".to_string()), Some("1".to_string()));
    assert_eq!(store.get(&"b".to_string()), Some("2".to_string()));
}

#[test]
fn save_data_writes_json_object() {
    let mut store = Store::new();
    assert!(store.set("key".to_string(), "value".to_string()));
    let text = save_data(&store).expect("encoding a string map succeeds");
    let parsed: serde_json::Value = serde_json::from_str(&text).expect("snapshot text is JSON");
    assert_eq!(parsed["key"], serde_json::Value::String("value".to_string()));
}
