use rbatis_xugu::text::{ends_with_chars, same_chars, starts_with_chars};

#[test]
fn same_chars_compares_whole_strings() {
    assert!(same_chars("id", "id"));
    assert!(same_chars("", ""));
    assert!(!same_chars("id", "ID"));
    assert!(!same_chars("id", "id "));
    assert!(same_chars("虚谷", "虚谷"));
    assert!(!same_chars("虚谷", "虚"));
}

#[test]
fn suffix_and_prefix() {
    assert!(ends_with_chars("user_id", "_id"));
    assert!(ends_with_chars("_id", "_id"));
    assert!(!ends_with_chars("id", "_id"));
    assert!(ends_with_chars("abc", ""));
    assert!(starts_with_chars("id_card", "id_"));
    assert!(!starts_with_chars("idcard", "id_"));
    assert!(starts_with_chars("列_id", "列"));
    assert!(ends_with_chars("列_id", "_id"));
}
