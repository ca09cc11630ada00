use kvstore::denylist::load_block_versions;

#[test]
fn single_line_parses_to_pair() {
    let list = load_block_versions(Some("1.0|2.0"));
    assert_eq!(list.pairs(), &vec![("1.0".to_string(), "2.0".to_string())]);
}

#[test]
fn three_field_line_is_skipped() {
    let list = load_block_versions(Some("1.0|2.0|extra"));
    assert!(list.pairs().is_empty());
}

#[test]
fn line_without_delimiter_is_skipped() {
    let list = load_block_versions(Some("no delimiter here"));
    assert!(list.pairs().is_empty());
}

#[test]
fn blank_lines_are_skipped() {
    let list = load_block_versions(Some("\n   \n1.0|2.0\n\n"));
    assert_eq!(list.pairs(), &vec![("1.0".to_string(), "2.0".to_string())]);
}

#[test]
fn crlf_line_endings_parse_like_lf() {
    let list = load_block_versions(Some("1.0|2.0\r\n3.0|4.0\r\n"));
    assert_eq!(
        list.pairs(),
        &vec![
            ("1.0".to_string(), "2.0".to_string()),
            ("3.0".to_string(), "4.0".to_string()),
        ]
    );
}

#[test]
fn pairs_keep_source_order() {
    let list = load_block_versions(Some("a|b\nbad line\nc|d"));
    assert_eq!(
        list.pairs(),
        &vec![
            ("a".to_string(), "b".to_string()),
            ("c".to_string(), "d".to_string()),
        ]
    );
}

#[test]
fn absent_source_blocks_nothing() {
    let list = load_block_versions(None);
    assert!(list.pairs().is_empty());
    assert!(!list.is_blocked(&"1.0".to_string(), &"2.0".to_string()));
}

#[test]
fn is_blocked_matches_exact_pair_only() {
    let list = load_block_versions(Some("1.0|2.0"));
    assert!(list.is_blocked(&"1.0".to_string(), &"2.0".to_string()));
    assert!(!list.is_blocked(&"2.0".to_string(), &"1.0".to_string()));
    assert!(!list.is_blocked(&"1.0".to_string(), &"2.1".to_string()));
    assert!(!list.is_blocked(&"1.0".to_string(), &"2".to_string()));
}

#[test]
fn empty_fields_still_form_a_pair() {
    let list = load_block_versions(Some("|"));
    assert_eq!(list.pairs(), &vec![(String::new(), String::new())]);
}
