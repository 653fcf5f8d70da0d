use rbatis_xugu::xugu_mapper::{key_column, ColumnValue, XuguTableMapper};

fn column_type(column: &str, v: ColumnValue) -> String {
    XuguTableMapper.get_column_type(column, &v)
}

#[test]
fn driver_type_is_xugu() {
    assert_eq!(XuguTableMapper.driver_type(), "xugu");
}

#[test]
fn scalar_samples_map_to_fixed_types() {
    assert_eq!(column_type("a", ColumnValue::Null), "NULL");
    assert_eq!(column_type("a", ColumnValue::Bool), "BOOLEAN");
    assert_eq!(column_type("a", ColumnValue::I32), "INTEGER");
    assert_eq!(column_type("a", ColumnValue::I64), "BIGINT");
    assert_eq!(column_type("a", ColumnValue::U32), "INTEGER");
    assert_eq!(column_type("a", ColumnValue::U64), "BIGINT");
    assert_eq!(column_type("a", ColumnValue::F32), "FLOAT");
    assert_eq!(column_type("a", ColumnValue::F64), "DOUBLE");
    assert_eq!(column_type("a", ColumnValue::Binary), "BLOB");
    assert_eq!(column_type("a", ColumnValue::Array), "CLOB");
    assert_eq!(column_type("a", ColumnValue::KeyValueMap), "CLOB");
}

#[test]
fn nonempty_text_sample_is_the_type() {
    assert_eq!(column_type("id", ColumnValue::Text("VARCHAR(36)".to_string())), "VARCHAR(36)");
    assert_eq!(column_type("name", ColumnValue::Text("TEXT".to_string())), "TEXT");
}

#[test]
fn empty_text_sample_in_key_columns() {
    let empty = || ColumnValue::Text(String::new());
    assert_eq!(column_type("id", empty()), "VARCHAR(50)");
    assert_eq!(column_type("user_id", empty()), "VARCHAR(50)");
    assert_eq!(column_type("id_card", empty()), "VARCHAR(50)");
    assert_eq!(column_type("_id", empty()), "VARCHAR(50)");
    assert_eq!(column_type("id_", empty()), "VARCHAR(50)");
}

#[test]
fn empty_text_sample_in_other_columns() {
    let empty = || ColumnValue::Text(String::new());
    assert_eq!(column_type("name", empty()), "VARCHAR(100)");
    assert_eq!(column_type("", empty()), "VARCHAR(100)");
    assert_eq!(column_type("idx", empty()), "VARCHAR(100)");
    assert_eq!(column_type("ID", empty()), "VARCHAR(100)");
    assert_eq!(column_type("uid", empty()), "VARCHAR(100)");
    assert_eq!(column_type("i", empty()), "VARCHAR(100)");
}

#[test]
fn key_column_names() {
    assert!(key_column("id"));
    assert!(key_column("order_id"));
    assert!(key_column("id_no"));
    assert!(!key_column("ids"));
    assert!(!key_column("valid"));
    assert!(!key_column(""));
}

#[test]
fn extension_samples() {
    let ext = |t: &str| ColumnValue::Ext(t.to_string());
    assert_eq!(column_type("a", ext("Date")), "DATE");
    assert_eq!(column_type("a", ext("DateTime")), "DATETIME");
    assert_eq!(column_type("a", ext("Time")), "TIME");
    assert_eq!(column_type("a", ext("Timestamp")), "DATETIME");
    assert_eq!(column_type("a", ext("Decimal")), "NUMERIC");
    assert_eq!(column_type("a", ext("Json")), "JSON");
    assert_eq!(column_type("a", ext("Uuid")), "GUID");
    assert_eq!(column_type("a", ext("Other")), "NULL");
    assert_eq!(column_type("a", ext("date")), "NULL");
    assert_eq!(column_type("a", ext("")), "NULL");
}

#[test]
fn column_name_matters_only_for_empty_text() {
    for v in [ColumnValue::I32, ColumnValue::Bool, ColumnValue::F64] {
        let a = XuguTableMapper.get_column_type("id", &v);
        let b = XuguTableMapper.get_column_type("name", &v);
        assert_eq!(a, b);
    }
    let t = ColumnValue::Text("CHAR(2)".to_string());
    assert_eq!(column_type("id", t), "CHAR(2)");
}

#[test]
fn every_column_type_is_nonempty() {
    let samples = vec![
        ColumnValue::Null, ColumnValue::Bool, ColumnValue::I32, ColumnValue::I64,
        ColumnValue::U32, ColumnValue::U64, ColumnValue::F32, ColumnValue::F64,
        ColumnValue::Text(String::new()), ColumnValue::Binary, ColumnValue::Array,
        ColumnValue::KeyValueMap, ColumnValue::Ext("Json".to_string()),
        ColumnValue::Ext("x".to_string()),
    ];
    for v in samples {
        assert!(!XuguTableMapper.get_column_type("c", &v).is_empty());
    }
}

#[test]
fn integer_sign_is_ignored() {
    assert_eq!(column_type("n", ColumnValue::I32), column_type("n", ColumnValue::U32));
    assert_eq!(column_type("n", ColumnValue::I64), column_type("n", ColumnValue::U64));
}
