use rbatis_xugu::crud::{
    batches_fit, delete_matches_nothing, plan_insert_batch, plan_select, plan_update,
    resolve_table_name, BatchInsert, ConditionEntry, ConditionValue, CrudError,
};

fn entry(key: &str, value: ConditionValue) -> ConditionEntry {
    ConditionEntry { key: Some(key.to_string()), value }
}

fn text(s: &str) -> ConditionValue {
    ConditionValue::Text(s.to_string())
}

fn list(items: &[Option<&str>]) -> ConditionValue {
    ConditionValue::List(items.iter().map(|i| i.map(|s| s.to_string())).collect())
}

#[test]
fn table_name_given_or_snake() {
    assert_eq!(resolve_table_name("mock_table", "mock_table_x"), "mock_table");
    assert_eq!(resolve_table_name("", "mock_table"), "mock_table");
}

#[test]
fn select_without_column_entry_reads_all() {
    let c = vec![entry("id", text("1"))];
    let p = plan_select(&c);
    assert_eq!(p.columns, "*");
    assert_eq!(p.conditions, vec![0]);
    assert!(!p.matches_nothing);
}

#[test]
fn select_with_column_list() {
    let c = vec![entry("id", text("1")), entry("column", list(&[Some("id"), Some("name")]))];
    let p = plan_select(&c);
    assert_eq!(p.columns, "id, name");
    assert_eq!(p.conditions, vec![0]);
    assert!(!p.matches_nothing);
}

#[test]
fn select_with_column_text() {
    let c = vec![entry("column", text("id,name")), entry("name", text("a"))];
    let p = plan_select(&c);
    assert_eq!(p.columns, "id,name");
    assert_eq!(p.conditions, vec![1]);
}

#[test]
fn select_column_list_skips_non_text() {
    let c = vec![entry("column", list(&[None, Some("a"), None, Some("b")]))];
    assert_eq!(plan_select(&c).columns, "a, b");
    let c = vec![entry("column", list(&[None]))];
    assert_eq!(plan_select(&c).columns, "*");
    let c = vec![entry("column", list(&[]))];
    assert_eq!(plan_select(&c).columns, "*");
}

#[test]
fn select_column_of_other_kind_or_empty_reads_all() {
    let c = vec![entry("column", ConditionValue::Scalar)];
    assert_eq!(plan_select(&c).columns, "*");
    let c = vec![entry("column", text(""))];
    assert_eq!(plan_select(&c).columns, "*");
    let c = vec![entry("column", ConditionValue::Ext(Box::new(text("id"))))];
    assert_eq!(plan_select(&c).columns, "*");
}

#[test]
fn select_last_column_entry_wins() {
    let c = vec![entry("column", text("a")), entry("column", text("b"))];
    let p = plan_select(&c);
    assert_eq!(p.columns, "b");
    assert!(p.conditions.is_empty());
}

#[test]
fn select_empty_array_matches_nothing() {
    let c = vec![entry("id", list(&[])), entry("name", text("a"))];
    let p = plan_select(&c);
    assert!(p.matches_nothing);
    assert_eq!(p.conditions, vec![0, 1]);
    let c = vec![entry("id", ConditionValue::Ext(Box::new(list(&[]))))];
    assert!(plan_select(&c).matches_nothing);
    let c = vec![entry("id", list(&[Some("1")]))];
    assert!(!plan_select(&c).matches_nothing);
}

#[test]
fn select_empty_column_list_is_no_condition() {
    let c = vec![entry("column", list(&[])), entry("id", text("1"))];
    let p = plan_select(&c);
    assert!(!p.matches_nothing);
    assert_eq!(p.conditions, vec![1]);
}

#[test]
fn keyless_entries_are_conditions() {
    let c = vec![ConditionEntry { key: None, value: text("x") }, entry("id", text("1"))];
    let p = plan_select(&c);
    assert_eq!(p.conditions, vec![0, 1]);
}

#[test]
fn update_without_column_entry_writes_all() {
    let c = vec![entry("id", text("1"))];
    let p = plan_update(&c);
    assert_eq!(p.set_columns, None);
    assert_eq!(p.conditions, vec![0]);
    assert!(!p.matches_nothing);
}

#[test]
fn update_with_column_entries() {
    let c = vec![entry("id", text("1")), entry("column", list(&[Some("name"), None, Some("age")]))];
    let p = plan_update(&c);
    assert_eq!(p.set_columns, Some(vec!["name".to_string(), "age".to_string()]));
    assert_eq!(p.conditions, vec![0]);
    let c = vec![entry("column", text("name"))];
    assert_eq!(plan_update(&c).set_columns, Some(vec!["name".to_string()]));
    let c = vec![entry("column", list(&[None]))];
    assert_eq!(plan_update(&c).set_columns, None);
    let c = vec![entry("column", ConditionValue::Scalar)];
    assert_eq!(plan_update(&c).set_columns, None);
    let c = vec![entry("column", text(""))];
    assert_eq!(plan_update(&c).set_columns, Some(vec![String::new()]));
}

#[test]
fn update_empty_array_matches_nothing() {
    let c = vec![entry("id", list(&[])), entry("column", text("name"))];
    let p = plan_update(&c);
    assert!(p.matches_nothing);
    assert_eq!(p.conditions, vec![0]);
}

#[test]
fn delete_empty_array_matches_nothing() {
    assert!(!delete_matches_nothing(&vec![entry("id", text("1"))]));
    assert!(delete_matches_nothing(&vec![entry("id", text("1")), entry("ids", list(&[]))]));
    assert!(delete_matches_nothing(&vec![entry("column", list(&[]))]));
    assert!(!delete_matches_nothing(&vec![]));
}

#[test]
fn plain_condition_agrees_across_methods() {
    let c = vec![entry("a", text("1")), entry("b", list(&[]))];
    assert_eq!(plan_select(&c).matches_nothing, delete_matches_nothing(&c));
    assert_eq!(plan_update(&c).matches_nothing, delete_matches_nothing(&c));
    assert_eq!(plan_select(&c).conditions, vec![0, 1]);
}

#[test]
fn insert_batches() {
    assert_eq!(plan_insert_batch(5, 2), Ok(vec![(0, 2), (2, 4), (4, 5)]));
    assert_eq!(plan_insert_batch(4, 2), Ok(vec![(0, 2), (2, 4)]));
    assert_eq!(plan_insert_batch(1, 10), Ok(vec![(0, 1)]));
    assert_eq!(plan_insert_batch(3, 1), Ok(vec![(0, 1), (1, 2), (2, 3)]));
    assert_eq!(plan_insert_batch(3, 0), Ok(vec![]));
    assert_eq!(plan_insert_batch(3, u64::MAX), Ok(vec![(0, 3)]));
}

#[test]
fn insert_of_no_rows_is_refused() {
    assert_eq!(plan_insert_batch(0, 10), Err(CrudError::EmptyInsert));
    assert_eq!(CrudError::EmptyInsert.message(), "insert can not insert empty array tables!");
    assert!(BatchInsert::start(0, 1).is_err());
}

#[test]
fn batches_cover_rows_once() {
    for rows in 1..40usize {
        for size in 1..12u64 {
            let b = plan_insert_batch(rows, size).unwrap();
            assert_eq!(b[0].0, 0);
            assert_eq!(b[b.len() - 1].1, rows);
            for w in b.windows(2) {
                assert_eq!(w[0].1, w[1].0);
            }
            for r in &b {
                assert!(r.0 < r.1 && (r.1 - r.0) as u64 <= size);
            }
        }
    }
}

#[test]
fn batch_fit() {
    assert!(batches_fit(3, u64::MAX));
    assert!(batches_fit(10, 0));
    assert!(batches_fit(0, 7));
    assert!(batches_fit(3, u64::MAX - 1));
    assert!(!batches_fit(usize::MAX, u64::MAX / 2 + 1));
    assert!(batches_fit(2, u64::MAX / 2));
}

#[test]
fn batch_insert_run() {
    let mut run = BatchInsert::start(5, 2).unwrap();
    let mut seen = vec![];
    let mut rows = 3u64;
    while let Some(batch) = run.next_batch() {
        seen.push(batch);
        assert!(run.can_record(rows));
        run.record(rows);
        rows += 1;
    }
    assert_eq!(seen, vec![(0, 2), (2, 4), (4, 5)]);
    assert_eq!(run.rows_affected(), 3 + 4 + 5);
    assert_eq!(run.next_batch(), None);
}

#[test]
fn batch_insert_overflow_is_seen() {
    let mut run = BatchInsert::start(2, 1).unwrap();
    run.record(u64::MAX);
    assert!(!run.can_record(1));
    assert!(run.can_record(0));
}
