# rbatis-xugu

Support for the Xugu database in rbatis, with its rules proved in Verus.

- `src/xugu_mapper.rs` — the column types that table synchronisation gives Xugu
  columns (`XuguTableMapper::get_column_type`), stated by the spec function
  `xugu_column_type`.
- `src/crud.rs` — the decisions of the generated CRUD methods: table name, batch
  split of `insert_batch` (through rbatis' `Page::make_ranges`), the column list of
  `select_by_map`, the columns of `update_by_map`, the entries that remain
  conditions, and when a condition with an empty array matches nothing.
- `src/text.rs` — character comparisons used by both.
- `app/lib.rs` — the `crud!` macro and the `ColumnMapper` impl for rbatis; it
  converts `rbs::Value` to the library's types and runs the queries, whose SQL
  rbatis' `py_sql` generates.
