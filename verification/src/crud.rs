//! The decisions that the generated CRUD methods make before any SQL is run:
//! which table they address, how a batch insert is split, which columns a
//! `select_by_map` reads and an `update_by_map` writes, which condition entries
//! remain conditions, and when a query can match no row at all.
//!
//! A condition map is given as its entries in order: the text of each key (when the
//! key holds text) and the shape of each value.
use vstd::prelude::*;

use crate::text::same_chars;

verus! {

broadcast use vstd::string::group_string_axioms;

/// The value of a condition entry, as far as the planning reads it.
pub enum ConditionValue {
    /// A string value.
    Text(String),
    /// An array value, each element by the text it holds, if it holds text.
    List(Vec<Option<String>>),
    /// An extension value wrapping another value.
    Ext(Box<ConditionValue>),
    /// Any other value: null, a boolean, a number, bytes or a map.
    Scalar,
}

/// One entry of a condition map: the text of its key, if the key holds text, and
/// its value.
pub struct ConditionEntry {
    pub key: Option<String>,
    pub value: ConditionValue,
}

/// Why a CRUD method refuses its input.
#[derive(PartialEq, Eq, Structural, Debug)]
pub enum CrudError {
    /// `insert_batch` was given no rows.
    EmptyInsert,
}

impl CrudError {
    /// The message that the error carries.
    pub fn message(&self) -> (r: String)
        ensures
            r@ == "insert can not insert empty array tables!"@,
    {
        match self {
            CrudError::EmptyInsert => "insert can not insert empty array tables!".to_string(),
        }
    }
}

// ---------------------------------------------------------------------------
// table name

/// The table that a method addresses: the name given to the macro, or, where that
/// is empty, the snake-case name of the type.
pub open spec fn resolved_table_name(given: Seq<char>, snake: Seq<char>) -> Seq<char> {
    if given.len() == 0 {
        snake
    } else {
        given
    }
}

/// The table that a method addresses (see `resolved_table_name`).
pub fn resolve_table_name(given: &str, snake: &str) -> (r: String)
    ensures
        r@ == resolved_table_name(given@, snake@),
{
    if given.is_empty() {
        snake.to_string()
    } else {
        given.to_string()
    }
}

// ---------------------------------------------------------------------------
// condition entries

/// The key of `e` is the text `column`: the entry names columns, it is no condition.
pub open spec fn is_column_entry(e: ConditionEntry) -> bool {
    e.key matches Some(k) && k@ == "column"@
}

/// `v` is an array with no element, directly or inside extension values.
pub open spec fn is_empty_array(v: ConditionValue) -> bool
    decreases v,
{
    match v {
        ConditionValue::List(items) => items@.len() == 0,
        ConditionValue::Ext(inner) => is_empty_array(*inner),
        _ => false,
    }
}

/// The texts among `items`, in order.
pub open spec fn texts_of(items: Seq<Option<String>>) -> Seq<Seq<char>>
    decreases items.len(),
{
    if items.len() == 0 {
        Seq::empty()
    } else {
        let rest = texts_of(items.drop_last());
        match items.last() {
            Some(s) => rest.push(s@),
            None => rest,
        }
    }
}

/// `parts` joined, with `sep` between each two neighbours.
pub open spec fn joined(parts: Seq<Seq<char>>, sep: Seq<char>) -> Seq<char>
    decreases parts.len(),
{
    if parts.len() == 0 {
        Seq::empty()
    } else if parts.len() == 1 {
        parts[0]
    } else {
        joined(parts.drop_last(), sep) + sep + parts.last()
    }
}

/// The value of the last `column` entry among the first `n` entries, if any.
pub open spec fn last_column_value(entries: Seq<ConditionEntry>, n: int) -> Option<ConditionValue>
    decreases n,
{
    if n <= 0 {
        None
    } else if is_column_entry(entries[n - 1]) {
        Some(entries[n - 1].value)
    } else {
        last_column_value(entries, n - 1)
    }
}

/// The indices of the first `n` entries that are conditions (not `column` entries).
pub open spec fn condition_indices(entries: Seq<ConditionEntry>, n: int) -> Seq<int>
    decreases n,
{
    if n <= 0 {
        Seq::empty()
    } else if is_column_entry(entries[n - 1]) {
        condition_indices(entries, n - 1)
    } else {
        condition_indices(entries, n - 1).push(n - 1)
    }
}

/// Some condition entry (not a `column` entry) holds an empty array: no row can match.
pub open spec fn some_condition_empty(entries: Seq<ConditionEntry>) -> bool {
    exists|i: int| 0 <= i < entries.len() && empty_condition_at(entries, i)
}

/// Entry `i` is a condition (not a `column` entry) that holds an empty array.
pub open spec fn empty_condition_at(entries: Seq<ConditionEntry>, i: int) -> bool {
    !is_column_entry(entries[i]) && is_empty_array(entries[i].value)
}

/// Some entry holds an empty array: no row can match.
pub open spec fn some_entry_empty(entries: Seq<ConditionEntry>) -> bool {
    exists|i: int| 0 <= i < entries.len() && is_empty_array(#[trigger] entries[i].value)
}

/// The column list that a `column` entry with value `v` asks a select for.
pub open spec fn select_list_of(v: ConditionValue) -> Seq<char> {
    match v {
        ConditionValue::Text(s) => s@,
        ConditionValue::List(items) => if texts_of(items@).len() == 0 {
            "*"@
        } else {
            joined(texts_of(items@), ", "@)
        },
        _ => "*"@,
    }
}

/// The column list of a `select_by_map` with condition `entries`.
pub open spec fn select_list(entries: Seq<ConditionEntry>) -> Seq<char> {
    let asked = match last_column_value(entries, entries.len() as int) {
        Some(v) => select_list_of(v),
        None => Seq::empty(),
    };
    if asked.len() == 0 {
        "*"@
    } else {
        asked
    }
}

/// The columns that a `column` entry with value `v` asks an update to write, if it
/// restricts the update.
pub open spec fn update_columns_of(v: ConditionValue) -> Option<Seq<Seq<char>>> {
    match v {
        ConditionValue::Text(s) => Some(seq![s@]),
        ConditionValue::List(items) => if texts_of(items@).len() == 0 {
            None
        } else {
            Some(texts_of(items@))
        },
        _ => None,
    }
}

/// The columns that an `update_by_map` with condition `entries` writes, if it is
/// restricted to some.
pub open spec fn update_columns(entries: Seq<ConditionEntry>) -> Option<Seq<Seq<char>>> {
    match last_column_value(entries, entries.len() as int) {
        Some(v) => update_columns_of(v),
        None => None,
    }
}

/// The views of a list of strings.
pub open spec fn views_of(v: Seq<String>) -> Seq<Seq<char>> {
    v.map_values(|s: String| s@)
}

/// A `select_by_map` always selects something: its column list is never empty
/// (`*` where no column is asked for).
pub proof fn lemma_select_list_nonempty(entries: Seq<ConditionEntry>)
    ensures
        select_list(entries).len() > 0,
{
    reveal_strlit("*");
}

/// An `update_by_map` that is restricted to columns is restricted to at least one.
pub proof fn lemma_update_columns_nonempty(entries: Seq<ConditionEntry>)
    ensures
        update_columns(entries) matches Some(c) ==> c.len() > 0,
{
}

/// Where no entry is a `column` entry, every entry is a condition, and the select,
/// the update and the delete agree on whether the condition can match a row.
pub proof fn lemma_plain_condition(entries: Seq<ConditionEntry>)
    requires
        forall|i: int| 0 <= i < entries.len() ==> !is_column_entry(#[trigger] entries[i]),
    ensures
        condition_indices(entries, entries.len() as int) == Seq::new(
            entries.len(),
            |i: int| i,
        ),
        some_condition_empty(entries) == some_entry_empty(entries),
{
    lemma_all_conditions(entries, entries.len() as int);
    if some_entry_empty(entries) {
        let i = choose|i: int| 0 <= i < entries.len() && is_empty_array(#[trigger] entries[i].value);
        assert(empty_condition_at(entries, i));
    }
}

proof fn lemma_all_conditions(entries: Seq<ConditionEntry>, n: int)
    requires
        0 <= n <= entries.len(),
        forall|i: int| 0 <= i < entries.len() ==> !is_column_entry(#[trigger] entries[i]),
    ensures
        condition_indices(entries, n) == Seq::new(n as nat, |i: int| i),
    decreases n,
{
    if n > 0 {
        lemma_all_conditions(entries, n - 1);
        assert(!is_column_entry(entries[n - 1]));
        assert(Seq::new((n - 1) as nat, |i: int| i).push(n - 1) =~= Seq::new(
            n as nat,
            |i: int| i,
        ));
    } else {
        assert(Seq::new(0, |i: int| i) =~= Seq::<int>::empty());
    }
}

/// What a `select_by_map` reads: its column list, the entries that remain
/// conditions, and whether it can match no row.
pub struct SelectPlan {
    pub columns: String,
    pub conditions: Vec<usize>,
    pub matches_nothing: bool,
}

/// What an `update_by_map` writes: the columns it is restricted to (all non-null
/// columns where `None`), the entries that remain conditions, and whether it can
/// match no row.
pub struct UpdatePlan {
    pub set_columns: Option<Vec<String>>,
    pub conditions: Vec<usize>,
    pub matches_nothing: bool,
}

fn is_column_key(e: &ConditionEntry) -> (r: bool)
    ensures
        r == is_column_entry(*e),
{
    match &e.key {
        Some(k) => same_chars(k.as_str(), "column"),
        None => false,
    }
}

/// Whether `v` is an array with no element (see `is_empty_array`).
pub fn empty_array(v: &ConditionValue) -> (r: bool)
    ensures
        r == is_empty_array(*v),
    decreases v,
{
    match v {
        ConditionValue::List(items) => items.len() == 0,
        ConditionValue::Ext(inner) => empty_array(inner),
        ConditionValue::Text(_) => false,
        ConditionValue::Scalar => false,
    }
}

/// The texts among `items`, in order.
pub fn texts(items: &Vec<Option<String>>) -> (r: Vec<String>)
    ensures
        views_of(r@) == texts_of(items@),
{
    let mut r: Vec<String> = Vec::new();
    let mut i: usize = 0;
    while i < items.len()
        invariant
            i <= items.len(),
            views_of(r@) == texts_of(items@.subrange(0, i as int)),
        decreases items.len() - i,
    {
        assert(items@.subrange(0, i + 1).drop_last() =~= items@.subrange(0, i as int));
        match &items[i] {
            Some(s) => {
                r.push(s.clone());
                assert(views_of(r@) =~= views_of(r@.drop_last()).push(s@));
            },
            None => {},
        }
        i = i + 1;
    }
    assert(items@.subrange(0, items.len() as int) =~= items@);
    r
}

/// `parts` joined with `sep` (see `joined`).
pub fn join(parts: &Vec<String>, sep: &str) -> (r: String)
    ensures
        r@ == joined(views_of(parts@), sep@),
{
    let mut r = String::new();
    let mut i: usize = 0;
    while i < parts.len()
        invariant
            i <= parts.len(),
            r@ == joined(views_of(parts@.subrange(0, i as int)), sep@),
        decreases parts.len() - i,
    {
        let ghost before = views_of(parts@.subrange(0, i as int));
        let ghost after = views_of(parts@.subrange(0, i + 1));
        assert(after.drop_last() =~= before);
        assert(after.last() == parts@[i as int]@);
        if i > 0 {
            r.append(sep);
        }
        r.append(parts[i].as_str());
        i = i + 1;
    }
    assert(parts@.subrange(0, parts.len() as int) =~= parts@);
    r
}

fn select_list_for(v: &ConditionValue) -> (r: String)
    ensures
        r@ == select_list_of(*v),
{
    match v {
        ConditionValue::Text(s) => s.clone(),
        ConditionValue::List(items) => {
            let names = texts(items);
            if names.len() == 0 {
                "*".to_string()
            } else {
                join(&names, ", ")
            }
        },
        _ => "*".to_string(),
    }
}

fn update_columns_for(v: &ConditionValue) -> (r: Option<Vec<String>>)
    ensures
        match r {
            Some(c) => update_columns_of(*v) == Some(views_of(c@)),
            None => update_columns_of(*v) is None,
        },
{
    match v {
        ConditionValue::Text(s) => {
            let mut c: Vec<String> = Vec::new();
            c.push(s.clone());
            assert(views_of(c@) =~= seq![s@]);
            Some(c)
        },
        ConditionValue::List(items) => {
            let names = texts(items);
            if names.len() == 0 {
                None
            } else {
                Some(names)
            }
        },
        _ => None,
    }
}

/// The entries that remain conditions, and whether one of them holds an empty array.
fn split_conditions(entries: &Vec<ConditionEntry>) -> (r: (Vec<usize>, bool))
    ensures
        r.0@.map_values(|i: usize| i as int) == condition_indices(entries@, entries@.len() as int),
        r.1 == some_condition_empty(entries@),
{
    let mut kept: Vec<usize> = Vec::new();
    let mut empty = false;
    let mut i: usize = 0;
    while i < entries.len()
        invariant
            i <= entries.len(),
            kept@.map_values(|j: usize| j as int) == condition_indices(entries@, i as int),
            empty == exists|j: int| 0 <= j < i && empty_condition_at(entries@, j),
        decreases entries.len() - i,
    {
        if !is_column_key(&entries[i]) {
            let ghost old_kept = kept@;
            kept.push(i);
            assert(kept@.map_values(|j: usize| j as int) =~= old_kept.map_values(
                |j: usize| j as int,
            ).push(i as int));
            if empty_array(&entries[i].value) {
                empty = true;
            }
        }
        proof {
            if empty_condition_at(entries@, i as int) {
                assert(empty);
            } else {
                assert(empty == exists|j: int| 0 <= j < i && empty_condition_at(entries@, j));
            }
        }
        i = i + 1;
    }
    (kept, empty)
}

/// Plans a `select_by_map` with condition `entries`.
pub fn plan_select(entries: &Vec<ConditionEntry>) -> (r: SelectPlan)
    ensures
        r.columns@ == select_list(entries@),
        r.conditions@.map_values(|i: usize| i as int) == condition_indices(
            entries@,
            entries@.len() as int,
        ),
        r.matches_nothing == some_condition_empty(entries@),
{
    let mut asked = String::new();
    let mut i: usize = 0;
    while i < entries.len()
        invariant
            i <= entries.len(),
            asked@ == match last_column_value(entries@, i as int) {
                Some(v) => select_list_of(v),
                None => Seq::empty(),
            },
        decreases entries.len() - i,
    {
        if is_column_key(&entries[i]) {
            asked = select_list_for(&entries[i].value);
        }
        i = i + 1;
    }
    let columns = if asked.as_str().is_empty() {
        "*".to_string()
    } else {
        asked
    };
    let (conditions, matches_nothing) = split_conditions(entries);
    SelectPlan { columns, conditions, matches_nothing }
}

/// Plans an `update_by_map` with condition `entries`.
pub fn plan_update(entries: &Vec<ConditionEntry>) -> (r: UpdatePlan)
    ensures
        match r.set_columns {
            Some(c) => update_columns(entries@) == Some(views_of(c@)),
            None => update_columns(entries@) is None,
        },
        r.conditions@.map_values(|i: usize| i as int) == condition_indices(
            entries@,
            entries@.len() as int,
        ),
        r.matches_nothing == some_condition_empty(entries@),
{
    let mut set_columns: Option<Vec<String>> = None;
    let mut i: usize = 0;
    while i < entries.len()
        invariant
            i <= entries.len(),
            match set_columns {
                Some(c) => match last_column_value(entries@, i as int) {
                    Some(v) => update_columns_of(v) == Some(views_of(c@)),
                    None => false,
                },
                None => match last_column_value(entries@, i as int) {
                    Some(v) => update_columns_of(v) is None,
                    None => true,
                },
            },
        decreases entries.len() - i,
    {
        if is_column_key(&entries[i]) {
            set_columns = update_columns_for(&entries[i].value);
        }
        i = i + 1;
    }
    let (conditions, matches_nothing) = split_conditions(entries);
    UpdatePlan { set_columns, conditions, matches_nothing }
}

/// Whether a `delete_by_map` with condition `entries` can match no row: some entry
/// holds an empty array. (The delete keeps every entry as a condition.)
pub fn delete_matches_nothing(entries: &Vec<ConditionEntry>) -> (r: bool)
    ensures
        r == some_entry_empty(entries@),
{
    let mut i: usize = 0;
    while i < entries.len()
        invariant
            i <= entries.len(),
            forall|j: int| 0 <= j < i ==> !is_empty_array(#[trigger] entries@[j].value),
        decreases entries.len() - i,
    {
        if empty_array(&entries[i].value) {
            return true;
        }
        i = i + 1;
    }
    false
}

// ---------------------------------------------------------------------------
// batch insert

/// The number of pages that hold `total` rows, `size` rows a page (none where
/// `size` is 0).
pub open spec fn page_count(total: nat, size: nat) -> nat {
    if size == 0 {
        0
    } else if total % size == 0 {
        total / size
    } else {
        total / size + 1
    }
}

/// The rows of page `i` (counted from 0): from `i * size` up to, not including,
/// `i * size + size`, cut at `total`.
pub open spec fn page_range(total: nat, size: nat, i: nat) -> (nat, nat) {
    let start = i * size;
    if start + size > total {
        (start, total)
    } else {
        (start, start + size)
    }
}

/// The page arithmetic of `total` rows in pages of `size` rows stays within `u64`.
pub open spec fn pages_fit(total: nat, size: nat) -> bool {
    size == 0 || page_count(total, size) * size <= u64::MAX
}

/// `rbatis::plugin::Page::make_ranges`: for `total` rows in pages of `page_size`
/// rows it returns, page by page, the offset of the page's first row and the end of
/// the page (the offset plus the page size, cut at `total`); no page where
/// `page_size` is 0. It overflows `u64` (and panics in a debug build) unless
/// `pages_fit` holds, which `requires` asks.
#[verifier::external_body]
fn page_ranges(total: u64, page_size: u64) -> (r: Vec<(u64, u64)>)
    requires
        pages_fit(total as nat, page_size as nat),
    ensures
        r@.len() == page_count(total as nat, page_size as nat),
        forall|i: int|
            0 <= i < r@.len() ==> (#[trigger] r@[i]).0 == page_range(
                total as nat,
                page_size as nat,
                i as nat,
            ).0 && r@[i].1 == page_range(total as nat, page_size as nat, i as nat).1,
{
    rbatis::plugin::Page::<()>::make_ranges(total, page_size)
}

/// Whether `rows` rows can be split into batches of `batch_size` rows without
/// overflow (see `pages_fit`).
pub fn batches_fit(rows: usize, batch_size: u64) -> (r: bool)
    ensures
        r == pages_fit(rows as nat, batch_size as nat),
{
    if batch_size == 0 {
        return true;
    }
    let total = rows as u64;
    let pages = if total % batch_size == 0 {
        total / batch_size
    } else {
        assert(batch_size != 1) by {
            if batch_size == 1 {
                assert(total % 1 == 0) by (nonlinear_arith);
            }
        }
        assert(total / batch_size < 0xffff_ffff_ffff_ffff) by (nonlinear_arith)
            requires
                batch_size >= 2,
                total <= 0xffff_ffff_ffff_ffff,
        ;
        total / batch_size + 1
    };
    match pages.checked_mul(batch_size) {
        Some(_) => true,
        None => false,
    }
}

/// Splits an insert of `rows` rows into batches of at most `batch_size` rows: the
/// half-open row ranges, in order. No rows is an error; a batch size of 0 gives no
/// batch.
pub fn plan_insert_batch(rows: usize, batch_size: u64) -> (r: Result<Vec<(usize, usize)>, CrudError>)
    requires
        pages_fit(rows as nat, batch_size as nat),
    ensures
        rows == 0 <==> r is Err,
        r matches Err(e) ==> e == CrudError::EmptyInsert,
        r matches Ok(v) ==> {
            &&& v@.len() == page_count(rows as nat, batch_size as nat)
            &&& forall|i: int|
                0 <= i < v@.len() ==> (#[trigger] v@[i]).0 == page_range(
                    rows as nat,
                    batch_size as nat,
                    i as nat,
                ).0 && v@[i].1 == page_range(rows as nat, batch_size as nat, i as nat).1
        },
{
    if rows == 0 {
        return Err(CrudError::EmptyInsert);
    }
    let ranges = page_ranges(rows as u64, batch_size);
    let mut out: Vec<(usize, usize)> = Vec::new();
    let mut i: usize = 0;
    while i < ranges.len()
        invariant
            i <= ranges@.len(),
            ranges@.len() == page_count(rows as nat, batch_size as nat),
            forall|k: int|
                0 <= k < ranges@.len() ==> (#[trigger] ranges@[k]).0 == page_range(
                    rows as nat,
                    batch_size as nat,
                    k as nat,
                ).0 && ranges@[k].1 == page_range(rows as nat, batch_size as nat, k as nat).1,
            out@.len() == i,
            forall|k: int|
                0 <= k < i ==> (#[trigger] out@[k]).0 == ranges@[k].0 && out@[k].1
                    == ranges@[k].1,
        decreases ranges@.len() - i,
    {
        let (start, end) = ranges[i];
        proof {
            lemma_page_range_within(rows as nat, batch_size as nat, i as nat);
        }
        out.push((start as usize, end as usize));
        i = i + 1;
    }
    Ok(out)
}

/// Every page lies within the rows: `start <= end <= total`.
pub proof fn lemma_page_range_within(total: nat, size: nat, i: nat)
    requires
        i < page_count(total, size),
    ensures
        page_range(total, size, i).0 <= page_range(total, size, i).1 <= total,
{
    lemma_page_start_below(total, size, i);
}

/// The first row of every page is a row: `i * size < total`.
proof fn lemma_page_start_below(total: nat, size: nat, i: nat)
    requires
        i < page_count(total, size),
    ensures
        i * size < total,
{
    let q = total / size;
    let r = total % size;
    assert(total == q * size + r && r < size) by (nonlinear_arith)
        requires
            size > 0,
            q == total / size,
            r == total % size,
    ;
    if r == 0 {
        assert(i * size < total) by (nonlinear_arith)
            requires
                i < q,
                total == q * size + r,
                r == 0,
                size > 0,
        ;
    } else {
        assert(i * size < total) by (nonlinear_arith)
            requires
                i <= q,
                total == q * size + r,
                r > 0,
        ;
    }
}

/// The batches of an insert cover its rows exactly once, in order: the first
/// starts at row 0, each starts where the one before ends, the last ends at the
/// last row, and each holds between 1 and `size` rows.
pub proof fn lemma_batches_partition(total: nat, size: nat)
    requires
        total > 0,
        size > 0,
    ensures
        page_count(total, size) > 0,
        page_range(total, size, 0).0 == 0,
        page_range(total, size, (page_count(total, size) - 1) as nat).1 == total,
        forall|i: nat|
            i + 1 < page_count(total, size) ==> #[trigger] page_range(total, size, i).1
                == page_range(total, size, i + 1).0,
        forall|i: nat|
            i < page_count(total, size) ==> #[trigger] page_range(total, size, i).0 < page_range(
                total,
                size,
                i,
            ).1 && page_range(total, size, i).1 - page_range(total, size, i).0 <= size,
{
    let q = total / size;
    let r = total % size;
    let n = page_count(total, size);
    assert(total == q * size + r && r < size) by (nonlinear_arith)
        requires
            size > 0,
            q == total / size,
            r == total % size,
    ;
    assert(n > 0) by (nonlinear_arith)
        requires
            total == q * size + r,
            total > 0,
            n == (if r == 0 { q } else { q + 1 }),
    ;
    assert(n * size >= total) by (nonlinear_arith)
        requires
            total == q * size + r,
            r < size,
            n == (if r == 0 { q } else { q + 1 }),
    ;
    assert(0 * size == 0) by (nonlinear_arith);
    let last = (n - 1) as nat;
    assert(last * size + size == n * size) by (nonlinear_arith)
        requires
            last + 1 == n,
    ;
    assert forall|i: nat| i + 1 < page_count(total, size) implies #[trigger] page_range(
        total,
        size,
        i,
    ).1 == page_range(total, size, i + 1).0 by {
        lemma_page_start_below(total, size, i + 1);
        assert((i + 1) * size == i * size + size) by (nonlinear_arith);
    }
    assert forall|i: nat| i < page_count(total, size) implies #[trigger] page_range(
        total,
        size,
        i,
    ).0 < page_range(total, size, i).1 && page_range(total, size, i).1 - page_range(
        total,
        size,
        i,
    ).0 <= size by {
        lemma_page_start_below(total, size, i);
    }
}

/// The run of a batch insert: its batches, how many of them were sent, and the rows
/// that the sent ones affected.
pub struct BatchInsert {
    batches: Vec<(usize, usize)>,
    sent: usize,
    rows_affected: u64,
}

impl BatchInsert {
    /// The row ranges of the batches, in order.
    pub closed spec fn batches(&self) -> Seq<(usize, usize)> {
        self.batches@
    }

    /// How many batches were sent.
    pub closed spec fn sent(&self) -> nat {
        self.sent as nat
    }

    /// The rows that the sent batches affected.
    pub closed spec fn affected(&self) -> nat {
        self.rows_affected as nat
    }

    /// No more batches were sent than there are.
    pub closed spec fn wf(&self) -> bool {
        self.sent <= self.batches@.len()
    }

    /// Starts a batch insert of `rows` rows in batches of `batch_size` rows (see
    /// `plan_insert_batch`); no rows is an error.
    pub fn start(rows: usize, batch_size: u64) -> (r: Result<BatchInsert, CrudError>)
        requires
            pages_fit(rows as nat, batch_size as nat),
        ensures
            rows == 0 <==> r is Err,
            r matches Err(e) ==> e == CrudError::EmptyInsert,
            r matches Ok(b) ==> {
                &&& b.wf()
                &&& b.sent() == 0
                &&& b.affected() == 0
                &&& b.batches().len() == page_count(rows as nat, batch_size as nat)
                &&& forall|i: int|
                    0 <= i < b.batches().len() ==> (#[trigger] b.batches()[i]).0 == page_range(
                        rows as nat,
                        batch_size as nat,
                        i as nat,
                    ).0 && b.batches()[i].1 == page_range(
                        rows as nat,
                        batch_size as nat,
                        i as nat,
                    ).1
            },
    {
        match plan_insert_batch(rows, batch_size) {
            Ok(batches) => Ok(BatchInsert { batches, sent: 0, rows_affected: 0 }),
            Err(e) => Err(e),
        }
    }

    /// The next batch to send, if one is left.
    pub fn next_batch(&self) -> (r: Option<(usize, usize)>)
        requires
            self.wf(),
        ensures
            self.sent() < self.batches().len() ==> r == Some(self.batches()[self.sent() as int]),
            self.sent() == self.batches().len() ==> r is None,
    {
        if self.sent < self.batches.len() {
            Some(self.batches[self.sent])
        } else {
            None
        }
    }

    /// Records that the next batch was sent and affected `rows` rows.
    pub fn record(&mut self, rows: u64)
        requires
            old(self).wf(),
            old(self).sent() < old(self).batches().len(),
            old(self).affected() + rows <= u64::MAX,
        ensures
            final(self).wf(),
            final(self).batches() == old(self).batches(),
            final(self).sent() == old(self).sent() + 1,
            final(self).affected() == old(self).affected() + rows,
    {
        let n = self.batches.len();
        assert(self.sent < n);
        self.sent = self.sent + 1;
        self.rows_affected = self.rows_affected + rows;
    }

    /// Whether recording `rows` more affected rows stays within `u64`.
    pub fn can_record(&self, rows: u64) -> (r: bool)
        ensures
            r == (self.affected() + rows <= u64::MAX),
    {
        rows <= u64::MAX - self.rows_affected
    }

    /// The rows that the sent batches affected.
    pub fn rows_affected(&self) -> (r: u64)
        ensures
            r == self.affected(),
    {
        self.rows_affected
    }
}

// ---------------------------------------------------------------------------
// laws of the condition planning, stated over the entries themselves

/// The views of a list of strings are its strings' views, one for one.
pub proof fn lemma_views_of(v: Seq<String>)
    ensures
        views_of(v).len() == v.len(),
        forall|i: int| 0 <= i < v.len() ==> #[trigger] views_of(v)[i] == v[i]@,
{
}

/// A single part is joined to itself.
pub proof fn lemma_joined_single(p: Seq<char>, sep: Seq<char>)
    ensures
        joined(seq![p], sep) == p,
{
}

/// Joining a list of at least one part extended by `p` gives the join of the list,
/// then the separator, then `p`.
pub proof fn lemma_joined_push(parts: Seq<Seq<char>>, sep: Seq<char>, p: Seq<char>)
    requires
        parts.len() >= 1,
    ensures
        joined(parts.push(p), sep) == joined(parts, sep) + sep + p,
{
    assert(parts.push(p).drop_last() =~= parts);
}

/// Three parts are joined as the first, the separator, the second, the separator,
/// the third.
pub proof fn lemma_joined_three(a: Seq<char>, b: Seq<char>, c: Seq<char>, sep: Seq<char>)
    ensures
        joined(seq![a, b, c], sep) == a + sep + b + sep + c,
{
    lemma_joined_single(a, sep);
    assert(seq![a].push(b) =~= seq![a, b]);
    lemma_joined_push(seq![a], sep, b);
    assert(seq![a, b].push(c) =~= seq![a, b, c]);
    lemma_joined_push(seq![a, b], sep, c);
}

/// An element that holds text adds its text at the end; one that holds none adds
/// nothing.
pub proof fn lemma_texts_of_push(items: Seq<Option<String>>, o: Option<String>)
    ensures
        texts_of(items.push(o)) == match o {
            Some(s) => texts_of(items).push(s@),
            None => texts_of(items),
        },
{
    assert(items.push(o).drop_last() =~= items);
}

/// Where every element holds text, the texts are all the elements' texts, in order;
/// where none does, there is no text; never more texts than elements.
pub proof fn lemma_texts_of_bounds(items: Seq<Option<String>>)
    ensures
        texts_of(items).len() <= items.len(),
        (forall|i: int| 0 <= i < items.len() ==> #[trigger] items[i] is Some) ==> texts_of(items)
            == items.map_values(|o: Option<String>| o->0@),
        (forall|i: int| 0 <= i < items.len() ==> #[trigger] items[i] is None) ==> texts_of(
            items,
        ).len() == 0,
    decreases items.len(),
{
    if items.len() > 0 {
        let rest = items.drop_last();
        lemma_texts_of_bounds(rest);
        if forall|i: int| 0 <= i < items.len() ==> #[trigger] items[i] is Some {
            assert(forall|i: int| 0 <= i < rest.len() ==> #[trigger] rest[i] is Some) by {
                assert forall|i: int| 0 <= i < rest.len() implies #[trigger] rest[i] is Some by {
                    assert(rest[i] == items[i]);
                }
            }
            assert(items.last() is Some);
            assert(texts_of(items) =~= items.map_values(|o: Option<String>| o->0@));
        }
        if forall|i: int| 0 <= i < items.len() ==> #[trigger] items[i] is None {
            assert(forall|i: int| 0 <= i < rest.len() ==> #[trigger] rest[i] is None) by {
                assert forall|i: int| 0 <= i < rest.len() implies #[trigger] rest[i] is None by {
                    assert(rest[i] == items[i]);
                }
            }
            assert(items.last() is None);
        }
    }
}

/// A value is an empty array exactly when it is an array with no element, directly
/// or inside extension values: an array with any element, text or not, is not.
pub proof fn lemma_empty_array_exact(v: ConditionValue)
    ensures
        v matches ConditionValue::List(items) ==> (is_empty_array(v) <==> items@.len() == 0),
        v matches ConditionValue::Ext(inner) ==> (is_empty_array(v) == is_empty_array(*inner)),
        v matches ConditionValue::Text(_) ==> !is_empty_array(v),
        v is Scalar ==> !is_empty_array(v),
{
}

/// Where no entry holds an array with no element (and none wraps a value), no query
/// is skipped; where a condition entry (its key not the text `column`) holds an
/// array with no element, every query is skipped.
pub proof fn lemma_matches_nothing_exact(entries: Seq<ConditionEntry>)
    ensures
        (forall|i: int|
            0 <= i < entries.len() ==> !(#[trigger] entries[i].value is Ext) && (
            entries[i].value matches ConditionValue::List(items) ==> items@.len() > 0))
            ==> !some_entry_empty(entries) && !some_condition_empty(entries),
        (exists|i: int|
            0 <= i < entries.len() && !(#[trigger] entries[i].key matches Some(k) && k@
                == "column"@) && (entries[i].value matches ConditionValue::List(items)
                && items@.len() == 0)) ==> some_entry_empty(entries) && some_condition_empty(
            entries,
        ),
{
    if forall|i: int|
        0 <= i < entries.len() ==> !(#[trigger] entries[i].value is Ext) && (
        entries[i].value matches ConditionValue::List(items) ==> items@.len() > 0) {
        assert forall|i: int| 0 <= i < entries.len() implies !is_empty_array(
            #[trigger] entries[i].value,
        ) by {
            lemma_empty_array_exact(entries[i].value);
        }
        assert(!some_condition_empty(entries)) by {
            if some_condition_empty(entries) {
                let i = choose|i: int| 0 <= i < entries.len() && empty_condition_at(entries, i);
                assert(!is_empty_array(entries[i].value));
            }
        }
    }
    if exists|i: int|
        0 <= i < entries.len() && !(#[trigger] entries[i].key matches Some(k) && k@ == "column"@)
            && (entries[i].value matches ConditionValue::List(items) && items@.len() == 0) {
        let i = choose|i: int|
            0 <= i < entries.len() && !(#[trigger] entries[i].key matches Some(k) && k@
                == "column"@) && (entries[i].value matches ConditionValue::List(items)
                && items@.len() == 0);
        assert(empty_condition_at(entries, i));
        assert(is_empty_array(entries[i].value));
    }
}

proof fn lemma_condition_prefix(entries: Seq<ConditionEntry>, n: int)
    requires
        0 <= n <= entries.len(),
    ensures
        forall|i: int|
            0 <= i < n ==> (condition_indices(entries, n).contains(i) <==> !(
            #[trigger] entries[i].key matches Some(k) && k@ == "column"@)),
        forall|a: int|
            0 <= a < condition_indices(entries, n).len() ==> 0 <= #[trigger] condition_indices(
                entries,
                n,
            )[a] < n,
        forall|a: int, b: int|
            0 <= a < b < condition_indices(entries, n).len() ==> #[trigger] condition_indices(
                entries,
                n,
            )[a] < #[trigger] condition_indices(entries, n)[b],
    decreases n,
{
    if n > 0 {
        lemma_condition_prefix(entries, n - 1);
        let prev = condition_indices(entries, n - 1);
        let cur = condition_indices(entries, n);
        if is_column_entry(entries[n - 1]) {
            assert(cur == prev);
            assert(!cur.contains(n - 1));
        } else {
            assert(cur == prev.push(n - 1));
            assert(cur[prev.len() as int] == n - 1);
            assert forall|i: int| 0 <= i < n implies (cur.contains(i) <==> !(
            #[trigger] entries[i].key matches Some(k) && k@ == "column"@)) by {
                if i < n - 1 {
                    if prev.contains(i) {
                        let a = choose|a: int| 0 <= a < prev.len() && prev[a] == i;
                        assert(cur[a] == i);
                    }
                    if cur.contains(i) {
                        let a = choose|a: int| 0 <= a < cur.len() && cur[a] == i;
                        if a < prev.len() {
                            assert(prev[a] == i);
                        }
                    }
                }
            }
        }
    }
}

/// The entries that remain conditions are exactly those whose key is not the text
/// `column`, whatever their values and whatever other entries there are: every such
/// index once, in increasing order, and no other.
pub proof fn lemma_conditions_exact(entries: Seq<ConditionEntry>)
    ensures
        forall|i: int|
            0 <= i < entries.len() ==> (condition_indices(entries, entries.len() as int).contains(
                i,
            ) <==> !(#[trigger] entries[i].key matches Some(k) && k@ == "column"@)),
        forall|a: int|
            0 <= a < condition_indices(entries, entries.len() as int).len() ==> 0
                <= #[trigger] condition_indices(entries, entries.len() as int)[a]
                < entries.len(),
        forall|a: int, b: int|
            0 <= a < b < condition_indices(entries, entries.len() as int).len()
                ==> #[trigger] condition_indices(entries, entries.len() as int)[a]
                < #[trigger] condition_indices(entries, entries.len() as int)[b],
{
    lemma_condition_prefix(entries, entries.len() as int);
}

proof fn lemma_last_column_at(entries: Seq<ConditionEntry>, n: int, j: int)
    requires
        0 <= j < n <= entries.len(),
        entries[j].key matches Some(k) && k@ == "column"@,
        forall|k: int|
            j < k < entries.len() ==> !(#[trigger] entries[k].key matches Some(key) && key@
                == "column"@),
    ensures
        last_column_value(entries, n) == Some(entries[j].value),
    decreases n,
{
    if n - 1 > j {
        assert(!(entries[n - 1].key matches Some(key) && key@ == "column"@));
        lemma_last_column_at(entries, n - 1, j);
    }
}

proof fn lemma_no_column_prefix(entries: Seq<ConditionEntry>, n: int)
    requires
        0 <= n <= entries.len(),
        forall|k: int|
            0 <= k < entries.len() ==> !(#[trigger] entries[k].key matches Some(key) && key@
                == "column"@),
    ensures
        last_column_value(entries, n) is None,
    decreases n,
{
    if n > 0 {
        assert(!(entries[n - 1].key matches Some(key) && key@ == "column"@));
        lemma_no_column_prefix(entries, n - 1);
    }
}

/// Without an entry whose key is the text `column`, a select reads `*` and an update
/// writes every non-null column.
pub proof fn lemma_no_column_entry(entries: Seq<ConditionEntry>)
    requires
        forall|k: int|
            0 <= k < entries.len() ==> !(#[trigger] entries[k].key matches Some(key) && key@
                == "column"@),
    ensures
        select_list(entries) == "*"@,
        update_columns(entries) is None,
{
    lemma_no_column_prefix(entries, entries.len() as int);
}

/// The last entry whose key is the text `column` decides the select's column list: a
/// non-empty string is the list; an array's texts joined by `", "` are the list where
/// that join is not empty; anything else gives `*`.
pub proof fn lemma_select_list_from_last_column(entries: Seq<ConditionEntry>, j: int)
    requires
        0 <= j < entries.len(),
        entries[j].key matches Some(k) && k@ == "column"@,
        forall|k: int|
            j < k < entries.len() ==> !(#[trigger] entries[k].key matches Some(key) && key@
                == "column"@),
    ensures
        entries[j].value matches ConditionValue::Text(s) ==> select_list(entries) == (if s@.len()
            > 0 {
            s@
        } else {
            "*"@
        }),
        entries[j].value matches ConditionValue::List(items) ==> select_list(entries) == (if texts_of(
            items@,
        ).len() > 0 && joined(texts_of(items@), ", "@).len() > 0 {
            joined(texts_of(items@), ", "@)
        } else {
            "*"@
        }),
        (entries[j].value is Scalar || entries[j].value is Ext) ==> select_list(entries) == "*"@,
{
    lemma_last_column_at(entries, entries.len() as int, j);
    reveal_strlit("*");
}

/// The last entry whose key is the text `column` decides which columns an update
/// writes: a string restricts it to that one column, an array to its texts where it
/// has at least one; anything else leaves it unrestricted.
pub proof fn lemma_update_columns_from_last_column(entries: Seq<ConditionEntry>, j: int)
    requires
        0 <= j < entries.len(),
        entries[j].key matches Some(k) && k@ == "column"@,
        forall|k: int|
            j < k < entries.len() ==> !(#[trigger] entries[k].key matches Some(key) && key@
                == "column"@),
    ensures
        entries[j].value matches ConditionValue::Text(s) ==> update_columns(entries) == Some(
            seq![s@],
        ),
        entries[j].value matches ConditionValue::List(items) ==> update_columns(entries) == (if texts_of(
            items@,
        ).len() > 0 {
            Some(texts_of(items@))
        } else {
            None
        }),
        (entries[j].value is Scalar || entries[j].value is Ext) ==> update_columns(entries) is None,
{
    lemma_last_column_at(entries, entries.len() as int, j);
}

/// The table is the given name where one is given, else the type's snake-case name.
pub proof fn lemma_table_name(given: Seq<char>, snake: Seq<char>)
    ensures
        given.len() > 0 ==> resolved_table_name(given, snake) == given,
        given.len() == 0 ==> resolved_table_name(given, snake) == snake,
{
}

} // verus!
