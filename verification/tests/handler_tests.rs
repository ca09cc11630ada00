use kvstore::codec::load_data;
use kvstore::denylist::load_block_versions;
use kvstore::handlers::{get_value, set_value, validate};

#[test]
fn get_value_wraps_absence() {
    let store = load_data(None);
    let response = get_value(&store, &"missing".to_string());
    assert_eq!(response.value, None);
}

#[test]
fn set_value_reports_success_and_snapshot() {
    let mut store = load_data(None);
    let (response, snapshot) = set_value(&mut store, "k".to_string(), "v".to_string());
    assert!(response.success);

    let text = snapshot.expect("encoding a string map succeeds");
    let reloaded = load_data(Some(&text));
    assert_eq!(reloaded.get(&"k".to_string()), Some("v".to_string()));

    let read_back = get_value(&store, &"k".to_string());
    assert_eq!(read_back.value, Some("v".to_string()));
}

#[test]
fn validate_absent_pair_is_valid() {
    let list = load_block_versions(Some("1.0|1.0\n9.9|9.9"));
    let response = validate(&list, &"1.0".to_string(), &"2.0".to_string());
    assert!(response.valid);
}

#[test]
fn validate_blocked_pair_is_invalid() {
    let list = load_block_versions(Some("1.0|2.0"));
    let response = validate(&list, &"1.0".to_string(), &"2.0".to_string());
    assert!(!response.valid);
}

#[test]
fn validate_with_empty_list_is_valid() {
    let list = load_block_versions(None);
    let response = validate(&list, &"1.0".to_string(), &"2.0".to_string());
    assert!(response.valid);
}
