//! Column types that table synchronisation uses for the Xugu database.
//!
//! A column is described by its name and a sample value; the sample decides the
//! Xugu SQL type that the column gets.
use vstd::prelude::*;

use crate::text::{ends_with_chars, same_chars, starts_with_chars};

verus! {

broadcast use vstd::string::group_string_axioms;

/// The sample value of a column, as far as the type mapping reads it: the kind of
/// value, the text of a string sample, and the type name of an extension value.
pub enum ColumnValue {
    Null,
    Bool,
    I32,
    I64,
    U32,
    U64,
    F32,
    F64,
    /// A string sample; a non-empty string names the column type itself.
    Text(String),
    Binary,
    Array,
    /// A map of keys to values.
    KeyValueMap,
    /// An extension value, by its type name (`"Date"`, `"Decimal"`, ...).
    Ext(String),
}

/// The mapper that table synchronisation uses for Xugu.
pub struct XuguTableMapper;

/// The columns that hold keys: `id`, and names that end in `_id` or begin with `id_`.
pub open spec fn is_key_column(column: Seq<char>) -> bool {
    ||| column == "id"@
    ||| "_id"@.is_suffix_of(column)
    ||| "id_"@.is_prefix_of(column)
}

/// The column type of an extension value with type name `tag`.
pub open spec fn ext_column_type(tag: Seq<char>) -> Seq<char> {
    if tag == "Date"@ {
        "DATE"@
    } else if tag == "DateTime"@ {
        "DATETIME"@
    } else if tag == "Time"@ {
        "TIME"@
    } else if tag == "Timestamp"@ {
        "DATETIME"@
    } else if tag == "Decimal"@ {
        "NUMERIC"@
    } else if tag == "Json"@ {
        "JSON"@
    } else if tag == "Uuid"@ {
        "GUID"@
    } else {
        "NULL"@
    }
}

/// The column type of an empty string sample in column `column`.
pub open spec fn text_column_type(column: Seq<char>) -> Seq<char> {
    if is_key_column(column) {
        "VARCHAR(50)"@
    } else {
        "VARCHAR(100)"@
    }
}

/// The Xugu column type of column `column` with sample value `v`.
pub open spec fn xugu_column_type(column: Seq<char>, v: ColumnValue) -> Seq<char> {
    match v {
        ColumnValue::Null => "NULL"@,
        ColumnValue::Bool => "BOOLEAN"@,
        ColumnValue::I32 => "INTEGER"@,
        ColumnValue::I64 => "BIGINT"@,
        ColumnValue::U32 => "INTEGER"@,
        ColumnValue::U64 => "BIGINT"@,
        ColumnValue::F32 => "FLOAT"@,
        ColumnValue::F64 => "DOUBLE"@,
        ColumnValue::Text(s) => if s@.len() > 0 {
            s@
        } else {
            text_column_type(column)
        },
        ColumnValue::Binary => "BLOB"@,
        ColumnValue::Array => "CLOB"@,
        ColumnValue::KeyValueMap => "CLOB"@,
        ColumnValue::Ext(t) => ext_column_type(t@),
    }
}

/// Every sample value gets a non-empty column type.
pub proof fn lemma_column_type_nonempty(column: Seq<char>, v: ColumnValue)
    ensures
        xugu_column_type(column, v).len() > 0,
{
    reveal_strlit("NULL");
    reveal_strlit("BOOLEAN");
    reveal_strlit("INTEGER");
    reveal_strlit("BIGINT");
    reveal_strlit("FLOAT");
    reveal_strlit("DOUBLE");
    reveal_strlit("BLOB");
    reveal_strlit("CLOB");
    reveal_strlit("VARCHAR(50)");
    reveal_strlit("VARCHAR(100)");
    reveal_strlit("DATE");
    reveal_strlit("DATETIME");
    reveal_strlit("TIME");
    reveal_strlit("NUMERIC");
    reveal_strlit("JSON");
    reveal_strlit("GUID");
}

/// The column name takes part in the mapping only for an empty string sample:
/// for every other sample two columns get the same type.
pub proof fn lemma_column_name_matters_only_for_empty_text(c1: Seq<char>, c2: Seq<char>, v: ColumnValue)
    requires
        !(v matches ColumnValue::Text(s) && s@.len() == 0),
    ensures
        xugu_column_type(c1, v) == xugu_column_type(c2, v),
{
}

/// Integer columns are sized by width alone: signed and unsigned samples of one
/// width get the same type.
pub proof fn lemma_integer_sign_ignored(column: Seq<char>)
    ensures
        xugu_column_type(column, ColumnValue::I32) == xugu_column_type(column, ColumnValue::U32),
        xugu_column_type(column, ColumnValue::I64) == xugu_column_type(column, ColumnValue::U64),
{
}

/// A column name ends in `_id`, character by character.
pub open spec fn ends_in_underscore_id(c: Seq<char>) -> bool {
    c.len() >= 3 && c[c.len() - 3] == '_' && c[c.len() - 2] == 'i' && c[c.len() - 1] == 'd'
}

/// A column name begins with `id_`, character by character.
pub open spec fn begins_with_id_underscore(c: Seq<char>) -> bool {
    c.len() >= 3 && c[0] == 'i' && c[1] == 'd' && c[2] == '_'
}

/// A column name is `id`, character by character.
pub open spec fn is_id(c: Seq<char>) -> bool {
    c.len() == 2 && c[0] == 'i' && c[1] == 'd'
}

/// The key columns are exactly `id` and the names that end in `_id` or begin with
/// `id_`, whatever their length.
pub proof fn lemma_key_columns_exact(column: Seq<char>)
    ensures
        is_key_column(column) <==> (is_id(column) || ends_in_underscore_id(column)
            || begins_with_id_underscore(column)),
{
    reveal_strlit("id");
    reveal_strlit("_id");
    reveal_strlit("id_");
    let n = column.len();
    if ends_in_underscore_id(column) {
        assert("_id"@ =~= column.subrange(n - 3, n as int));
    }
    if "_id"@.is_suffix_of(column) {
        assert(column[n - 3] == column.subrange(n - 3, n as int)[0]);
        assert(column[n - 2] == column.subrange(n - 3, n as int)[1]);
        assert(column[n - 1] == column.subrange(n - 3, n as int)[2]);
    }
    if begins_with_id_underscore(column) {
        assert("id_"@ =~= column.subrange(0, 3));
    }
    if "id_"@.is_prefix_of(column) {
        assert(column[0] == column.subrange(0, 3)[0]);
        assert(column[1] == column.subrange(0, 3)[1]);
        assert(column[2] == column.subrange(0, 3)[2]);
    }
    if is_id(column) {
        assert(column =~= "id"@);
    }
}

/// An empty string sample gets `VARCHAR(50)` in a key column (`id`, `..._id`,
/// `id_...`) of any length and `VARCHAR(100)` in every other column; a non-empty
/// string sample is the column type itself, whatever the column.
pub proof fn lemma_text_sample_types(column: Seq<char>, s: String)
    ensures
        s@.len() == 0 ==> xugu_column_type(column, ColumnValue::Text(s)) == (if is_id(column)
            || ends_in_underscore_id(column) || begins_with_id_underscore(column) {
            "VARCHAR(50)"@
        } else {
            "VARCHAR(100)"@
        }),
        s@.len() > 0 ==> xugu_column_type(column, ColumnValue::Text(s)) == s@,
{
    lemma_key_columns_exact(column);
}

/// The types of non-string samples: integers by width (`INTEGER` for 32 bits,
/// `BIGINT` for 64, signed or not), floats by width (`FLOAT`, `DOUBLE`), `BOOLEAN`,
/// `BLOB` for bytes, `CLOB` for arrays and maps, `NULL` for null; none depends on the
/// column; the 32- and 64-bit types differ.
pub proof fn lemma_non_text_types(column: Seq<char>)
    ensures
        xugu_column_type(column, ColumnValue::Null) == "NULL"@,
        xugu_column_type(column, ColumnValue::Bool) == "BOOLEAN"@,
        xugu_column_type(column, ColumnValue::I32) == "INTEGER"@,
        xugu_column_type(column, ColumnValue::U32) == "INTEGER"@,
        xugu_column_type(column, ColumnValue::I64) == "BIGINT"@,
        xugu_column_type(column, ColumnValue::U64) == "BIGINT"@,
        xugu_column_type(column, ColumnValue::F32) == "FLOAT"@,
        xugu_column_type(column, ColumnValue::F64) == "DOUBLE"@,
        xugu_column_type(column, ColumnValue::Binary) == "BLOB"@,
        xugu_column_type(column, ColumnValue::Array) == "CLOB"@,
        xugu_column_type(column, ColumnValue::KeyValueMap) == "CLOB"@,
        xugu_column_type(column, ColumnValue::I32) != xugu_column_type(column, ColumnValue::I64),
        xugu_column_type(column, ColumnValue::F32) != xugu_column_type(column, ColumnValue::F64),
{
    reveal_strlit("INTEGER");
    reveal_strlit("BIGINT");
    reveal_strlit("FLOAT");
    reveal_strlit("DOUBLE");
    assert("INTEGER"@.len() != "BIGINT"@.len());
    assert("FLOAT"@.len() != "DOUBLE"@.len());
}

/// The types of extension samples by type name: dates `DATE`, date-times and
/// timestamps `DATETIME`, times `TIME`, decimals `NUMERIC`, JSON `JSON`, UUIDs
/// `GUID`; every other type name gives `NULL`.
pub proof fn lemma_ext_types(column: Seq<char>, t: String)
    ensures
        t@ == "Date"@ ==> xugu_column_type(column, ColumnValue::Ext(t)) == "DATE"@,
        t@ == "DateTime"@ ==> xugu_column_type(column, ColumnValue::Ext(t)) == "DATETIME"@,
        t@ == "Timestamp"@ ==> xugu_column_type(column, ColumnValue::Ext(t)) == "DATETIME"@,
        t@ == "Time"@ ==> xugu_column_type(column, ColumnValue::Ext(t)) == "TIME"@,
        t@ == "Decimal"@ ==> xugu_column_type(column, ColumnValue::Ext(t)) == "NUMERIC"@,
        t@ == "Json"@ ==> xugu_column_type(column, ColumnValue::Ext(t)) == "JSON"@,
        t@ == "Uuid"@ ==> xugu_column_type(column, ColumnValue::Ext(t)) == "GUID"@,
        !(t@ == "Date"@ || t@ == "DateTime"@ || t@ == "Timestamp"@ || t@ == "Time"@ || t@
            == "Decimal"@ || t@ == "Json"@ || t@ == "Uuid"@) ==> xugu_column_type(
            column,
            ColumnValue::Ext(t),
        ) == "NULL"@,
{
    reveal_strlit("Date");
    reveal_strlit("DateTime");
    reveal_strlit("Timestamp");
    reveal_strlit("Time");
    reveal_strlit("Decimal");
    reveal_strlit("Json");
    reveal_strlit("Uuid");
    assert("Timestamp"@.len() != "Date"@.len() && "Timestamp"@.len() != "DateTime"@.len()
        && "Timestamp"@.len() != "Time"@.len());
    assert("Time"@.len() != "DateTime"@.len() && "Time"@[0] != "Date"@[1]);
    assert("Time"@[1] != "Date"@[1]);
    assert("Json"@[0] != "Date"@[0] && "Json"@[0] != "Time"@[0]);
    assert("Uuid"@[0] != "Date"@[0] && "Uuid"@[0] != "Time"@[0] && "Uuid"@[0] != "Json"@[0]);
}

/// Whether `column` is a key column (see `is_key_column`).
pub fn key_column(column: &str) -> (r: bool)
    ensures
        r == is_key_column(column@),
{
    same_chars(column, "id") || ends_with_chars(column, "_id") || starts_with_chars(column, "id_")
}

fn literal(s: &str) -> (r: String)
    ensures
        r@ == s@,
{
    s.to_string()
}

fn ext_type(tag: &str) -> (r: String)
    ensures
        r@ == ext_column_type(tag@),
{
    if same_chars(tag, "Date") {
        literal("DATE")
    } else if same_chars(tag, "DateTime") {
        literal("DATETIME")
    } else if same_chars(tag, "Time") {
        literal("TIME")
    } else if same_chars(tag, "Timestamp") {
        literal("DATETIME")
    } else if same_chars(tag, "Decimal") {
        literal("NUMERIC")
    } else if same_chars(tag, "Json") {
        literal("JSON")
    } else if same_chars(tag, "Uuid") {
        literal("GUID")
    } else {
        literal("NULL")
    }
}

impl XuguTableMapper {
    /// The driver name that the mapper serves.
    pub fn driver_type(&self) -> (r: String)
        ensures
            r@ == "xugu"@,
    {
        literal("xugu")
    }

    /// The Xugu column type of column `column` whose sample value is `v`.
    pub fn get_column_type(&self, column: &str, v: &ColumnValue) -> (r: String)
        ensures
            r@ == xugu_column_type(column@, *v),
    {
        match v {
            ColumnValue::Null => literal("NULL"),
            ColumnValue::Bool => literal("BOOLEAN"),
            ColumnValue::I32 => literal("INTEGER"),
            ColumnValue::I64 => literal("BIGINT"),
            ColumnValue::U32 => literal("INTEGER"),
            ColumnValue::U64 => literal("BIGINT"),
            ColumnValue::F32 => literal("FLOAT"),
            ColumnValue::F64 => literal("DOUBLE"),
            ColumnValue::Text(s) => {
                if !s.as_str().is_empty() {
                    s.clone()
                } else if key_column(column) {
                    literal("VARCHAR(50)")
                } else {
                    literal("VARCHAR(100)")
                }
            },
            ColumnValue::Binary => literal("BLOB"),
            ColumnValue::Array => literal("CLOB"),
            ColumnValue::KeyValueMap => literal("CLOB"),
            ColumnValue::Ext(t) => ext_type(t.as_str()),
        }
    }
}

} // verus!
