//! Oracle and Arrow type mapping (text-preserving).
//!
//! Values cross as their canonical text so precision is never lost: NUMBER (any
//! precision/scale), temporal types, INTERVAL, ROWID and the character types
//! all map to `Utf8`; RAW/BLOB map to `Binary`; the IEEE `BINARY_FLOAT` /
//! `BINARY_DOUBLE` map to Arrow floats.
//!
//! Temporal/CLOB columns are rendered server-side with `TO_CHAR` against pinned
//! formats (see [`projected_select`]) so the wire text is exactly the canonical
//! format regardless of session NLS; the destination wraps temporal binds in the
//! matching `TO_DATE`/`TO_TIMESTAMP`/`TO_TIMESTAMP_TZ` ([`typed_expr`]).

use vstd::prelude::*;

use crate::calendar::{
    civil_date_from_unix_days, micros_text, midnight_text, millis_text, timestamp_text,
    unix_days_text, utc_fields_from_micros, utc_fields_from_millis,
};
use crate::conn::{FMT_DATE, FMT_TIMESTAMP, FMT_TIMESTAMP_TZ};
use crate::ident::{quote_ident, quoted};
use crate::text::{decimal_int, join, push_decimal, push_joined, views};

verus! {

// ── Column types ─────────────────────────────────────────────────────────────

/// The type of an Oracle column, as the native client describes it.
#[derive(Debug, Clone, Copy, PartialEq, Eq, Structural)]
pub enum OracleType {
    Varchar2(u32),
    NVarchar2(u32),
    Char(u32),
    NChar(u32),
    Rowid,
    Raw(u32),
    BinaryFloat,
    BinaryDouble,
    Number(u8, i8),
    Float(u8),
    Date,
    Timestamp(u8),
    TimestampTZ(u8),
    TimestampLTZ(u8),
    IntervalDS(u8, u8),
    IntervalYM(u8),
    CLOB,
    NCLOB,
    BLOB,
    BFILE,
    RefCursor,
    Boolean,
    Object,
    Long,
    LongRaw,
    Json,
    Xml,
    Int64,
    UInt64,
}

/// The resolution of an Arrow timestamp.
#[derive(Debug, Clone, Copy, PartialEq, Eq, Structural)]
pub enum TimeUnit {
    Second,
    Millisecond,
    Microsecond,
    Nanosecond,
}

/// The Arrow data types the connector reads and writes; `Other` stands for
/// every other Arrow type.
#[derive(Debug, Clone, Copy, PartialEq, Eq, Structural)]
pub enum DataType {
    Boolean,
    Int32,
    Int64,
    Float32,
    Float64,
    Utf8,
    LargeUtf8,
    Binary,
    Date32,
    Timestamp(TimeUnit),
    Other,
}

/// A column of an Arrow schema.
#[derive(Debug)]
pub struct Field {
    pub name: String,
    pub data_type: DataType,
    pub nullable: bool,
}

impl Field {
    pub fn name(&self) -> (r: &String)
        ensures
            r == &self.name,
    {
        &self.name
    }

    pub fn data_type(&self) -> (r: &DataType)
        ensures
            *r == self.data_type,
    {
        &self.data_type
    }

    pub fn is_nullable(&self) -> (r: bool)
        ensures
            r == self.nullable,
    {
        self.nullable
    }
}

/// An Arrow schema: the columns of a record batch, in order.
#[derive(Debug)]
pub struct Schema {
    pub fields: Vec<Field>,
}

impl Schema {
    pub fn fields(&self) -> (r: &Vec<Field>)
        ensures
            r == &self.fields,
    {
        &self.fields
    }

    pub fn field(&self, i: usize) -> (r: &Field)
        requires
            i < self.fields.len(),
        ensures
            *r == self.fields@[i as int],
    {
        &self.fields[i]
    }
}

/// A minimal, owned description of one result column (name and Oracle type).
#[derive(Debug)]
pub struct ColumnDesc {
    pub name: String,
    pub oracle_type: OracleType,
}

// ── Schema inference (source) ────────────────────────────────────────────────

/// The Arrow type a column of Oracle type `t` is read as.
pub open spec fn arrow_type_of(t: OracleType) -> DataType {
    match t {
        OracleType::BinaryFloat => DataType::Float32,
        OracleType::BinaryDouble => DataType::Float64,
        OracleType::Raw(_) | OracleType::LongRaw | OracleType::BLOB | OracleType::BFILE => {
            DataType::Binary
        },
        OracleType::Boolean => DataType::Boolean,
        _ => DataType::Utf8,
    }
}

/// Maps an Oracle column type to an Arrow `DataType`: NUMBER, all temporal and
/// interval types, CHAR/VARCHAR2/CLOB/LONG, ROWID, JSON and anything exotic
/// become text-preserving `Utf8`.
pub fn oracle_to_arrow(t: &OracleType) -> (r: DataType)
    ensures
        r == arrow_type_of(*t),
{
    match t {
        OracleType::BinaryFloat => DataType::Float32,
        OracleType::BinaryDouble => DataType::Float64,
        OracleType::Raw(_) | OracleType::LongRaw | OracleType::BLOB | OracleType::BFILE => {
            DataType::Binary
        },
        OracleType::Boolean => DataType::Boolean,
        _ => DataType::Utf8,
    }
}

/// The `TO_CHAR(...)` expression a column of type `t` is read through, or
/// `None` to read the column directly.
pub open spec fn to_char_spec(col: Seq<char>, t: OracleType) -> Option<Seq<char>> {
    match t {
        OracleType::Date => Some("TO_CHAR("@ + quoted(col) + ", '"@ + FMT_DATE@ + "')"@),
        OracleType::Timestamp(_) => Some(
            "TO_CHAR("@ + quoted(col) + ", '"@ + FMT_TIMESTAMP@ + "')"@,
        ),
        OracleType::TimestampTZ(_) | OracleType::TimestampLTZ(_) => Some(
            "TO_CHAR("@ + quoted(col) + ", '"@ + FMT_TIMESTAMP_TZ@ + "')"@,
        ),
        OracleType::CLOB | OracleType::NCLOB | OracleType::Long | OracleType::IntervalYM(_)
        | OracleType::IntervalDS(_, _) => Some("TO_CHAR("@ + quoted(col) + ")"@),
        _ => None,
    }
}

/// Whether a column must be read through `TO_CHAR`: returns the `TO_CHAR(...)`
/// expression to use, or `None` to read the column directly.
fn to_char_expr(col: &str, t: &OracleType) -> (r: Option<String>)
    ensures
        r is Some <==> to_char_spec(col@, *t) is Some,
        r matches Some(e) ==> e@ == to_char_spec(col@, *t)->0,
{
    let quoted_col = quote_ident(col);
    let fmt: Option<&str> = match t {
        OracleType::Date => Some(FMT_DATE),
        OracleType::Timestamp(_) => Some(FMT_TIMESTAMP),
        OracleType::TimestampTZ(_) | OracleType::TimestampLTZ(_) => Some(FMT_TIMESTAMP_TZ),
        OracleType::CLOB | OracleType::NCLOB | OracleType::Long | OracleType::IntervalYM(_)
        | OracleType::IntervalDS(_, _) => None,
        _ => {
            return None;
        },
    };
    let mut e = String::from_str("TO_CHAR(");
    e.append(quoted_col.as_str());
    match fmt {
        Some(f) => {
            e.append(", '");
            e.append(f);
            e.append("')");
        },
        None => {
            e.append(")");
        },
    }
    Some(e)
}

/// The select-list entry of one column: its `TO_CHAR` expression aliased to
/// the column's quoted name, or just the quoted name.
pub open spec fn select_item(col: Seq<char>, t: OracleType) -> Seq<char> {
    match to_char_spec(col, t) {
        Some(e) => e + " AS "@ + quoted(col),
        None => quoted(col),
    }
}

/// The select-list entries of described columns.
pub open spec fn select_items(cols: Seq<ColumnDesc>) -> Seq<Seq<char>> {
    Seq::new(cols.len(), |i: int| select_item(cols[i].name@, cols[i].oracle_type))
}

/// Builds the projected `SELECT` list and the matching Arrow `Schema` from the
/// described columns. Temporal/CLOB columns are wrapped in `TO_CHAR(...) AS
/// "name"`; every other column is selected verbatim. All fields are nullable.
pub fn projected_select(cols: &[ColumnDesc]) -> (r: (String, Schema))
    ensures
        r.0@ == join(select_items(cols@), ", "@),
        r.1.fields.len() == cols.len(),
        forall|i: int|
            0 <= i < cols.len() ==> {
                &&& (#[trigger] r.1.fields@[i]).name@ == cols@[i].name@
                &&& r.1.fields@[i].data_type == arrow_type_of(cols@[i].oracle_type)
                &&& r.1.fields@[i].nullable
            },
{
    let mut select: Vec<String> = Vec::new();
    let mut fields: Vec<Field> = Vec::new();
    let mut i: usize = 0;
    while i < cols.len()
        invariant
            i <= cols.len(),
            select.len() == i,
            fields.len() == i,
            forall|k: int|
                0 <= k < i ==> #[trigger] select@[k]@ == select_item(
                    cols@[k].name@,
                    cols@[k].oracle_type,
                ),
            forall|k: int|
                0 <= k < i ==> {
                    &&& (#[trigger] fields@[k]).name@ == cols@[k].name@
                    &&& fields@[k].data_type == arrow_type_of(cols@[k].oracle_type)
                    &&& fields@[k].nullable
                },
        decreases cols.len() - i,
    {
        let c = &cols[i];
        let item = match to_char_expr(c.name.as_str(), &c.oracle_type) {
            Some(e) => {
                let mut item = e;
                item.append(" AS ");
                let q = quote_ident(c.name.as_str());
                item.append(q.as_str());
                item
            },
            None => quote_ident(c.name.as_str()),
        };
        select.push(item);
        fields.push(
            Field {
                name: c.name.clone(),
                data_type: oracle_to_arrow(&c.oracle_type),
                nullable: true,
            },
        );
        i = i + 1;
    }
    let mut list = String::new();
    push_joined(&mut list, &select, ", ");
    assert(views(select@) =~= select_items(cols@));
    (list, Schema { fields })
}

/// The spec form of [`typed_expr`].
pub open spec fn typed_spec(inner: Seq<char>, t: OracleType) -> Seq<char> {
    match t {
        OracleType::Date => "TO_DATE("@ + inner + ", '"@ + FMT_DATE@ + "')"@,
        OracleType::Timestamp(_) => "TO_TIMESTAMP("@ + inner + ", '"@ + FMT_TIMESTAMP@ + "')"@,
        OracleType::TimestampTZ(_) | OracleType::TimestampLTZ(_) => "TO_TIMESTAMP_TZ("@ + inner
            + ", '"@ + FMT_TIMESTAMP_TZ@ + "')"@,
        _ => inner,
    }
}

/// Wraps a SQL token (`:1`, or a quoted literal) in the explicit `TO_*`
/// conversion for a temporal Oracle type, so text-to-value conversion never
/// relies on the session's NLS settings. Non-temporal types pass through
/// unchanged (Oracle's implicit char-to-NUMBER/CLOB conversion handles them).
pub fn typed_expr(inner: &str, t: &OracleType) -> (r: String)
    ensures
        r@ == typed_spec(inner@, *t),
{
    let (open, fmt): (&str, &str) = match t {
        OracleType::Date => ("TO_DATE(", FMT_DATE),
        OracleType::Timestamp(_) => ("TO_TIMESTAMP(", FMT_TIMESTAMP),
        OracleType::TimestampTZ(_) | OracleType::TimestampLTZ(_) => (
            "TO_TIMESTAMP_TZ(",
            FMT_TIMESTAMP_TZ,
        ),
        _ => {
            let mut r = String::new();
            r.append(inner);
            return r;
        },
    };
    let mut r = String::from_str(open);
    r.append(inner);
    r.append(", '");
    r.append(fmt);
    r.append("')");
    r
}

// ── Row cells (source) ───────────────────────────────────────────────────────

/// One fetched Oracle value, already reduced to the representation Arrow needs:
/// text for everything except binary columns, which keep their raw bytes.
#[derive(Debug, Clone)]
pub enum Cell {
    Null,
    Text(String),
    Bytes(Vec<u8>),
}

/// The text of a cell: `None` for NULL and for raw bytes.
pub open spec fn cell_text(c: Cell) -> Option<Seq<char>> {
    match c {
        Cell::Text(s) => Some(s@),
        _ => None,
    }
}

impl Cell {
    /// The text of a cell, or `None` for NULL / raw bytes (used for the
    /// incremental watermark, which only ever tracks a text/number/temporal
    /// column).
    pub fn text(&self) -> (r: Option<&str>)
        ensures
            r is Some <==> cell_text(*self) is Some,
            r matches Some(t) ==> t@ == cell_text(*self)->0,
    {
        match self {
            Cell::Text(s) => Some(s.as_str()),
            _ => None,
        }
    }
}

/// The cell at `idx` in a row, treating a short row as NULL.
pub open spec fn cell_at_spec(row: Seq<Cell>, idx: int) -> Cell {
    if 0 <= idx < row.len() {
        row[idx]
    } else {
        Cell::Null
    }
}

/// The cell at `idx` in a row; `None` stands for NULL past a short row's end.
fn cell_at(row: &Vec<Cell>, idx: usize) -> (r: Option<&Cell>)
    ensures
        r matches Some(c) ==> *c == cell_at_spec(row@, idx as int),
        r is None ==> cell_at_spec(row@, idx as int) == Cell::Null,
{
    if idx < row.len() {
        Some(&row[idx])
    } else {
        None
    }
}

/// The text of the cell at `idx` of a row.
fn text_at(row: &Vec<Cell>, idx: usize) -> (r: Option<&str>)
    ensures
        r is Some <==> cell_text(cell_at_spec(row@, idx as int)) is Some,
        r matches Some(t) ==> t@ == cell_text(cell_at_spec(row@, idx as int))->0,
{
    match cell_at(row, idx) {
        Some(c) => c.text(),
        None => None,
    }
}

/// The value of a boolean column's text: `1`, `true`, `TRUE` are true and `0`,
/// `false`, `FALSE` are false; any other text is not a boolean.
pub open spec fn bool_of(t: Seq<char>) -> Option<bool> {
    if t == "1"@ || t == "true"@ || t == "TRUE"@ {
        Some(true)
    } else if t == "0"@ || t == "false"@ || t == "FALSE"@ {
        Some(false)
    } else {
        None
    }
}

/// The values of one column of a record batch, decided cell by cell. Float
/// columns keep the cell text, to be read as a floating-point number.
#[derive(Debug)]
pub enum ColumnValues {
    Float32(Vec<Option<String>>),
    Float64(Vec<Option<String>>),
    Boolean(Vec<Option<bool>>),
    Binary(Vec<Option<Vec<u8>>>),
    Utf8(Vec<Option<String>>),
}

/// Why a column could not be built.
#[derive(Debug)]
pub enum BatchError {
    /// A boolean column holds text that is not a boolean.
    UnexpectedBool { column: String, value: String },
    /// The field's Arrow type is not one the source produces.
    UnsupportedType { column: String, data_type: DataType },
}

pub open spec fn opt_view(o: Option<String>) -> Option<Seq<char>> {
    match o {
        Some(s) => Some(s@),
        None => None,
    }
}

/// The bytes of a binary column's cell: raw bytes as they are, text as its
/// UTF-8 encoding, NULL as `None`.
pub open spec fn cell_bytes(c: Cell) -> Option<Seq<u8>> {
    match c {
        Cell::Null => None,
        Cell::Bytes(b) => Some(b@),
        Cell::Text(s) => Some(vstd::utf8::encode_utf8(s@)),
    }
}

pub open spec fn opt_bytes_view(o: Option<Vec<u8>>) -> Option<Seq<u8>> {
    match o {
        Some(b) => Some(b@),
        None => None,
    }
}

/// The text of column `idx` of every row matches.
pub open spec fn texts_match(vals: Seq<Option<String>>, rows: Seq<Vec<Cell>>, idx: int) -> bool {
    &&& vals.len() == rows.len()
    &&& forall|i: int|
        0 <= i < rows.len() ==> opt_view(#[trigger] vals[i]) == cell_text(
            cell_at_spec(rows[i]@, idx),
        )
}

/// Row `i` of column `idx` holds text that is not a boolean.
pub open spec fn bad_bool_at(rows: Seq<Vec<Cell>>, idx: int, i: int) -> bool {
    cell_text(cell_at_spec(rows[i]@, idx)) matches Some(t) && bool_of(t) is None
}

fn texts_of(rows: &[Vec<Cell>], idx: usize) -> (r: Vec<Option<String>>)
    ensures
        texts_match(r@, rows@, idx as int),
{
    let mut vals: Vec<Option<String>> = Vec::new();
    let mut i: usize = 0;
    while i < rows.len()
        invariant
            i <= rows.len(),
            vals.len() == i,
            forall|k: int|
                0 <= k < i ==> opt_view(#[trigger] vals@[k]) == cell_text(
                    cell_at_spec(rows@[k]@, idx as int),
                ),
        decreases rows.len() - i,
    {
        let v = match text_at(&rows[i], idx) {
            Some(t) => Some(t.to_string()),
            None => None,
        };
        vals.push(v);
        i = i + 1;
    }
    vals
}

fn bool_value(t: &str) -> (r: Option<bool>)
    ensures
        r == bool_of(t@),
{
    let s = crate::text::owned(t);
    let one = String::from_str("1");
    let tr = String::from_str("true");
    let tr_up = String::from_str("TRUE");
    let zero = String::from_str("0");
    let fa = String::from_str("false");
    let fa_up = String::from_str("FALSE");
    if s == one || s == tr || s == tr_up {
        Some(true)
    } else if s == zero || s == fa || s == fa_up {
        Some(false)
    } else {
        None
    }
}

/// Builds the values of column `idx` of `rows` as the field's Arrow type asks:
/// text columns keep the cell text; boolean columns read `1/true/TRUE` and
/// `0/false/FALSE`, failing on the first other text; binary columns take the
/// raw bytes, or the UTF-8 bytes of a text cell. A short row counts as NULL.
pub fn build_column(rows: &[Vec<Cell>], idx: usize, field: &Field) -> (r: Result<
    ColumnValues,
    BatchError,
>)
    ensures
        field.data_type == DataType::Float32 ==> (r matches Ok(ColumnValues::Float32(vals))
            && texts_match(vals@, rows@, idx as int)),
        field.data_type == DataType::Float64 ==> (r matches Ok(ColumnValues::Float64(vals))
            && texts_match(vals@, rows@, idx as int)),
        field.data_type == DataType::Utf8 ==> (r matches Ok(ColumnValues::Utf8(vals))
            && texts_match(vals@, rows@, idx as int)),
        field.data_type == DataType::Binary ==> (r matches Ok(ColumnValues::Binary(vals))
            && vals.len() == rows.len() && forall|i: int|
            0 <= i < rows.len() ==> opt_bytes_view(#[trigger] vals@[i]) == cell_bytes(
                cell_at_spec(rows@[i]@, idx as int),
            )),
        field.data_type == DataType::Boolean ==> {
            &&& r is Ok <==> !exists|i: int| 0 <= i < rows.len() && bad_bool_at(rows@, idx as int, i)
            &&& r is Ok ==> (r matches Ok(ColumnValues::Boolean(vals)) && vals.len() == rows.len()
                && forall|i: int|
                0 <= i < rows.len() ==> #[trigger] vals@[i] == match cell_text(
                    cell_at_spec(rows@[i]@, idx as int),
                ) {
                    Some(t) => bool_of(t),
                    None => None,
                })
            &&& r matches Err(e) ==> e matches BatchError::UnexpectedBool { column, value }
                && column@ == field.name@ && exists|i: int|
                0 <= i < rows.len() && bad_bool_at(rows@, idx as int, i) && cell_text(
                    cell_at_spec(rows@[i]@, idx as int),
                ) == Some(value@) && forall|j: int|
                    0 <= j < i ==> !bad_bool_at(rows@, idx as int, j)
        },
        !(field.data_type == DataType::Float32 || field.data_type == DataType::Float64
            || field.data_type == DataType::Utf8 || field.data_type == DataType::Binary
            || field.data_type == DataType::Boolean) ==> (r matches Err(
            BatchError::UnsupportedType { column, data_type },
        ) && column@ == field.name@ && data_type == field.data_type),
{
    match field.data_type {
        DataType::Float32 => Ok(ColumnValues::Float32(texts_of(rows, idx))),
        DataType::Float64 => Ok(ColumnValues::Float64(texts_of(rows, idx))),
        DataType::Utf8 => Ok(ColumnValues::Utf8(texts_of(rows, idx))),
        DataType::Boolean => {
            let mut vals: Vec<Option<bool>> = Vec::new();
            let mut i: usize = 0;
            while i < rows.len()
                invariant
                    i <= rows.len(),
                    vals.len() == i,
                    field.data_type == DataType::Boolean,
                    forall|k: int| 0 <= k < i ==> !bad_bool_at(rows@, idx as int, k),
                    forall|k: int|
                        0 <= k < i ==> #[trigger] vals@[k] == match cell_text(
                            cell_at_spec(rows@[k]@, idx as int),
                        ) {
                            Some(t) => bool_of(t),
                            None => None,
                        },
                decreases rows.len() - i,
            {
                match text_at(&rows[i], idx) {
                    None => vals.push(None),
                    Some(t) => match bool_value(t) {
                        Some(b) => vals.push(Some(b)),
                        None => {
                            assert(bad_bool_at(rows@, idx as int, i as int));
                            return Err(
                                BatchError::UnexpectedBool {
                                    column: field.name.clone(),
                                    value: t.to_string(),
                                },
                            );
                        },
                    },
                }
                i = i + 1;
            }
            Ok(ColumnValues::Boolean(vals))
        },
        DataType::Binary => {
            let mut vals: Vec<Option<Vec<u8>>> = Vec::new();
            let mut i: usize = 0;
            while i < rows.len()
                invariant
                    i <= rows.len(),
                    vals.len() == i,
                    forall|k: int|
                        0 <= k < i ==> opt_bytes_view(#[trigger] vals@[k]) == cell_bytes(
                            cell_at_spec(rows@[k]@, idx as int),
                        ),
                decreases rows.len() - i,
            {
                let v = match cell_at(&rows[i], idx) {
                    None => None,
                    Some(Cell::Null) => None,
                    Some(Cell::Bytes(b)) => Some(vstd::slice::slice_to_vec(b.as_slice())),
                    Some(Cell::Text(s)) => Some(vstd::slice::slice_to_vec(s.as_str().as_bytes())),
                };
                vals.push(v);
                i = i + 1;
            }
            Ok(ColumnValues::Binary(vals))
        },
        _ => Err(
            BatchError::UnsupportedType { column: field.name.clone(), data_type: field.data_type },
        ),
    }
}

// ── Arrow to Oracle bind (destination) ───────────────────────────────────────

/// One bind value: text (the default: Oracle converts server-side under the
/// `TO_*` wrappers / implicit char-to-number) or raw bytes for binary columns.
/// `None` carries a typed NULL.
#[derive(Debug)]
pub enum Bind {
    Text(Option<String>),
    Bytes(Option<Vec<u8>>),
}

/// One cell of an incoming Arrow column, read as a plain value. Floating-point
/// cells arrive as the text of the number.
#[derive(Debug)]
pub enum ArrowValue {
    /// A NULL cell of a column of the given type.
    Null(DataType),
    Int32(i32),
    Int64(i64),
    /// The decimal text of a `Float32` or `Float64` value.
    Float(String),
    Boolean(bool),
    Utf8(String),
    LargeUtf8(String),
    Binary(Vec<u8>),
    /// Days since 1970-01-01.
    Date32(i32),
    /// A count of `TimeUnit`s since the Unix epoch.
    Timestamp(TimeUnit, i64),
    /// A non-NULL cell of a column whose type the destination cannot bind.
    Unsupported(DataType),
}

/// Why a cell could not be bound.
#[derive(Debug)]
pub enum BindError {
    /// The column's Arrow type is not supported yet.
    UnsupportedType(DataType),
    /// Timestamps are bound only at millisecond or microsecond resolution.
    UnsupportedTimestampUnit(TimeUnit),
    /// The `Date32` value lies outside the supported calendar.
    DateOutOfRange(i32),
    /// The timestamp lies outside the supported calendar.
    TimestampOutOfRange,
}

/// What `cell_to_bind` binds for a value: `Ok(Some(text))` for text,
/// `Ok(None)` for a text NULL; bytes and errors are described separately.
pub open spec fn bind_text_of(v: ArrowValue) -> Option<Option<Seq<char>>> {
    match v {
        ArrowValue::Null(t) => if t == DataType::Binary {
            None
        } else {
            Some(None)
        },
        ArrowValue::Int32(x) => Some(Some(decimal_int(x as int))),
        ArrowValue::Int64(x) => Some(Some(decimal_int(x as int))),
        ArrowValue::Float(s) => Some(Some(s@)),
        ArrowValue::Boolean(b) => Some(Some(if b { "1"@ } else { "0"@ })),
        ArrowValue::Utf8(s) => Some(Some(s@)),
        ArrowValue::LargeUtf8(s) => Some(Some(s@)),
        ArrowValue::Date32(d) => match civil_date_from_unix_days(d as int) {
            Some(t) => Some(Some(midnight_text(t))),
            None => None,
        },
        ArrowValue::Timestamp(TimeUnit::Millisecond, x) => match utc_fields_from_millis(x as int) {
            Some(t) => Some(Some(timestamp_text(t))),
            None => None,
        },
        ArrowValue::Timestamp(TimeUnit::Microsecond, x) => match utc_fields_from_micros(x as int) {
            Some(t) => Some(Some(timestamp_text(t))),
            None => None,
        },
        _ => None,
    }
}

/// What `cell_to_bind` binds as bytes: the bytes of a binary value, or a bytes
/// NULL for a NULL of a binary column.
pub open spec fn bind_bytes_of(v: ArrowValue) -> Option<Option<Seq<u8>>> {
    match v {
        ArrowValue::Null(t) => if t == DataType::Binary {
            Some(None)
        } else {
            None
        },
        ArrowValue::Binary(b) => Some(Some(b@)),
        _ => None,
    }
}

fn push_int(s: &mut String, x: i64)
    ensures
        final(s)@ == old(s)@ + decimal_int(x as int),
{
    if x < 0 {
        crate::text::push_char(s, '-');
        let m: u64 = (-(x as i128)) as u64;
        push_decimal(s, m);
        assert(s@ =~= old(s)@ + decimal_int(x as int));
    } else {
        push_decimal(s, x as u64);
    }
}

/// Converts one Arrow cell to a [`Bind`]. Everything but raw bytes is bound as
/// text and converted server-side under the pinned formats: integers as
/// decimal text, booleans as `1`/`0`, dates as `YYYY-MM-DD 00:00:00` and
/// timestamps as `YYYY-MM-DD HH:MM:SS.ffffff` in UTC. A NULL is a typed NULL:
/// bytes for a binary column, text otherwise.
pub fn cell_to_bind(value: ArrowValue) -> (r: Result<Bind, BindError>)
    ensures
        bind_text_of(value) matches Some(t) ==> (r matches Ok(Bind::Text(b)) && opt_view(b)
            == t),
        bind_bytes_of(value) matches Some(x) ==> (r matches Ok(Bind::Bytes(b)) && opt_bytes_view(b)
            == x),
        value is Date32 && civil_date_from_unix_days(value->Date32_0 as int) is None ==> (
        r matches Err(BindError::DateOutOfRange(e)) && e == value->Date32_0),
        value matches ArrowValue::Timestamp(TimeUnit::Millisecond, x) && utc_fields_from_millis(
            x as int,
        ) is None ==> (r matches Err(BindError::TimestampOutOfRange)),
        value matches ArrowValue::Timestamp(TimeUnit::Microsecond, x) && utc_fields_from_micros(
            x as int,
        ) is None ==> (r matches Err(BindError::TimestampOutOfRange)),
        value is Timestamp && (value->Timestamp_0 == TimeUnit::Second || value->Timestamp_0
            == TimeUnit::Nanosecond) ==> (r matches Err(BindError::UnsupportedTimestampUnit(e))
            && e == value->Timestamp_0),
        value matches ArrowValue::Unsupported(t) ==> (r matches Err(BindError::UnsupportedType(e))
            && e == t),
{
    match value {
        ArrowValue::Null(t) => {
            if t == DataType::Binary {
                Ok(Bind::Bytes(None))
            } else {
                Ok(Bind::Text(None))
            }
        },
        ArrowValue::Int32(x) => {
            let mut s = String::new();
            push_int(&mut s, x as i64);
            Ok(Bind::Text(Some(s)))
        },
        ArrowValue::Int64(x) => {
            let mut s = String::new();
            push_int(&mut s, x);
            Ok(Bind::Text(Some(s)))
        },
        ArrowValue::Float(s) => Ok(Bind::Text(Some(s))),
        ArrowValue::Boolean(b) => Ok(
            Bind::Text(
                Some(
                    if b {
                        String::from_str("1")
                    } else {
                        String::from_str("0")
                    },
                ),
            ),
        ),
        ArrowValue::Utf8(s) => Ok(Bind::Text(Some(s))),
        ArrowValue::LargeUtf8(s) => Ok(Bind::Text(Some(s))),
        ArrowValue::Binary(b) => Ok(Bind::Bytes(Some(b))),
        ArrowValue::Date32(d) => match unix_days_text(d) {
            Some(t) => Ok(Bind::Text(Some(t))),
            None => Err(BindError::DateOutOfRange(d)),
        },
        ArrowValue::Timestamp(unit, x) => {
            let text = match unit {
                TimeUnit::Millisecond => millis_text(x),
                TimeUnit::Microsecond => micros_text(x),
                _ => {
                    return Err(BindError::UnsupportedTimestampUnit(unit));
                },
            };
            match text {
                Some(t) => Ok(Bind::Text(Some(t))),
                None => Err(BindError::TimestampOutOfRange),
            }
        },
        ArrowValue::Unsupported(t) => Err(BindError::UnsupportedType(t)),
    }
}

// ── Laws ─────────────────────────────────────────────────────────────────────

/// The pinned text format of a temporal Oracle type.
pub open spec fn pinned_format(t: OracleType) -> Option<Seq<char>> {
    match t {
        OracleType::Date => Some(FMT_DATE@),
        OracleType::Timestamp(_) => Some(FMT_TIMESTAMP@),
        OracleType::TimestampTZ(_) | OracleType::TimestampLTZ(_) => Some(FMT_TIMESTAMP_TZ@),
        _ => None,
    }
}

/// `x` ends with `s`.
pub open spec fn ends_with(x: Seq<char>, s: Seq<char>) -> bool {
    s.len() <= x.len() && x.subrange(x.len() - s.len(), x.len() as int) == s
}

/// The source reads a temporal column in exactly the format the destination
/// writes it back with: `TO_CHAR` and the matching `TO_*` share the pinned
/// format (the `TO_*` call ends in `(<inner>, '<format>')`), and every other
/// type passes through untouched on the way in.
pub proof fn law_temporal_formats_agree(col: Seq<char>, inner: Seq<char>, t: OracleType)
    ensures
        pinned_format(t) matches Some(f) ==> to_char_spec(col, t) == Some(
            "TO_CHAR("@ + quoted(col) + ", '"@ + f + "')"@,
        ) && ends_with(typed_spec(inner, t), "("@ + inner + ", '"@ + f + "')"@),
        pinned_format(t) is None ==> typed_spec(inner, t) == inner,
{
    if let Some(f) = pinned_format(t) {
        reveal_strlit("TO_DATE(");
        reveal_strlit("TO_TIMESTAMP(");
        reveal_strlit("TO_TIMESTAMP_TZ(");
        reveal_strlit("(");
        let name = match t {
            OracleType::Date => "TO_DATE"@,
            OracleType::Timestamp(_) => "TO_TIMESTAMP"@,
            _ => "TO_TIMESTAMP_TZ"@,
        };
        reveal_strlit("TO_DATE");
        reveal_strlit("TO_TIMESTAMP");
        reveal_strlit("TO_TIMESTAMP_TZ");
        let open = match t {
            OracleType::Date => "TO_DATE("@,
            OracleType::Timestamp(_) => "TO_TIMESTAMP("@,
            _ => "TO_TIMESTAMP_TZ("@,
        };
        assert(open =~= name + "("@);
        let e = typed_spec(inner, t);
        let tail = "("@ + inner + ", '"@ + f + "')"@;
        assert(e == open + inner + ", '"@ + f + "')"@);
        assert(e =~= name + tail);
        assert(e.subrange(e.len() - tail.len(), e.len() as int) =~= tail);
    }
}

/// Which Arrow type each class of Oracle column crosses as: every RAW(n),
/// LONG RAW, BLOB and BFILE as bytes (`Binary`), BINARY_FLOAT as `Float32`,
/// BINARY_DOUBLE as `Float64`, BOOLEAN as `Boolean`, and every other type
/// (NUMBER, the character and temporal types, intervals, ROWID, ...) as its
/// text (`Utf8`).
pub proof fn law_arrow_type_classes(t: OracleType)
    ensures
        arrow_type_of(t) == DataType::Binary <==> (t is Raw || t is LongRaw || t is BLOB
            || t is BFILE),
        arrow_type_of(t) == DataType::Float32 <==> t is BinaryFloat,
        arrow_type_of(t) == DataType::Float64 <==> t is BinaryDouble,
        arrow_type_of(t) == DataType::Boolean <==> t is Boolean,
        arrow_type_of(t) == DataType::Utf8 <==> !(t is Raw || t is LongRaw || t is BLOB
            || t is BFILE || t is BinaryFloat || t is BinaryDouble || t is Boolean),
        forall|n: u32| #[trigger] arrow_type_of(OracleType::Raw(n)) == DataType::Binary,
{
}

/// The whole conversion a temporal target column gets, spelled out: `DATE`
/// through `TO_DATE` with seconds, `TIMESTAMP` through `TO_TIMESTAMP` with six
/// fractional digits, and both zoned timestamp types through `TO_TIMESTAMP_TZ`,
/// the one conversion that accepts the `TZH:TZM` offset elements. Every other
/// type leaves the token as it is.
pub proof fn law_typed_expr_conversions(inner: Seq<char>, t: OracleType)
    ensures
        t is Date ==> typed_spec(inner, t) == "TO_DATE("@ + inner
            + ", 'YYYY-MM-DD HH24:MI:SS')"@,
        t is Timestamp ==> typed_spec(inner, t) == "TO_TIMESTAMP("@ + inner
            + ", 'YYYY-MM-DD HH24:MI:SS.FF6')"@,
        (t is TimestampTZ || t is TimestampLTZ) ==> typed_spec(inner, t) == "TO_TIMESTAMP_TZ("@
            + inner + ", 'YYYY-MM-DD HH24:MI:SS.FF6 TZH:TZM')"@,
        !(t is Date || t is Timestamp || t is TimestampTZ || t is TimestampLTZ) ==> typed_spec(
            inner,
            t,
        ) == inner,
{
    reveal_strlit(", '");
    reveal_strlit("')");
    reveal_strlit("YYYY-MM-DD HH24:MI:SS");
    reveal_strlit("YYYY-MM-DD HH24:MI:SS.FF6");
    reveal_strlit("YYYY-MM-DD HH24:MI:SS.FF6 TZH:TZM");
    reveal_strlit(", 'YYYY-MM-DD HH24:MI:SS')");
    reveal_strlit(", 'YYYY-MM-DD HH24:MI:SS.FF6')");
    reveal_strlit(", 'YYYY-MM-DD HH24:MI:SS.FF6 TZH:TZM')");
    let a = "TO_DATE("@ + inner;
    let b = "TO_TIMESTAMP("@ + inner;
    let c = "TO_TIMESTAMP_TZ("@ + inner;
    assert(a + ", '"@ + FMT_DATE@ + "')"@ =~= a + ", 'YYYY-MM-DD HH24:MI:SS')"@);
    assert(b + ", '"@ + FMT_TIMESTAMP@ + "')"@ =~= b + ", 'YYYY-MM-DD HH24:MI:SS.FF6')"@);
    assert(c + ", '"@ + FMT_TIMESTAMP_TZ@ + "')"@ =~= c
        + ", 'YYYY-MM-DD HH24:MI:SS.FF6 TZH:TZM')"@);
}

/// How the source reads each column, spelled out: temporal columns through
/// `TO_CHAR` with the same formats the destination parses with, LOB, LONG and
/// interval columns through a bare `TO_CHAR`, and every other column directly.
pub proof fn law_to_char_reads(col: Seq<char>, t: OracleType)
    ensures
        t is Date ==> to_char_spec(col, t) == Some(
            "TO_CHAR("@ + quoted(col) + ", 'YYYY-MM-DD HH24:MI:SS')"@,
        ),
        t is Timestamp ==> to_char_spec(col, t) == Some(
            "TO_CHAR("@ + quoted(col) + ", 'YYYY-MM-DD HH24:MI:SS.FF6')"@,
        ),
        (t is TimestampTZ || t is TimestampLTZ) ==> to_char_spec(col, t) == Some(
            "TO_CHAR("@ + quoted(col) + ", 'YYYY-MM-DD HH24:MI:SS.FF6 TZH:TZM')"@,
        ),
        (t is CLOB || t is NCLOB || t is Long || t is IntervalYM || t is IntervalDS)
            ==> to_char_spec(col, t) == Some("TO_CHAR("@ + quoted(col) + ")"@),
        to_char_spec(col, t) is Some <==> (t is Date || t is Timestamp || t is TimestampTZ
            || t is TimestampLTZ || t is CLOB || t is NCLOB || t is Long || t is IntervalYM
            || t is IntervalDS),
{
    reveal_strlit(", '");
    reveal_strlit("')");
    reveal_strlit("YYYY-MM-DD HH24:MI:SS");
    reveal_strlit("YYYY-MM-DD HH24:MI:SS.FF6");
    reveal_strlit("YYYY-MM-DD HH24:MI:SS.FF6 TZH:TZM");
    reveal_strlit(", 'YYYY-MM-DD HH24:MI:SS')");
    reveal_strlit(", 'YYYY-MM-DD HH24:MI:SS.FF6')");
    reveal_strlit(", 'YYYY-MM-DD HH24:MI:SS.FF6 TZH:TZM')");
    let a = "TO_CHAR("@ + quoted(col);
    assert(a + ", '"@ + FMT_DATE@ + "')"@ =~= a + ", 'YYYY-MM-DD HH24:MI:SS')"@);
    assert(a + ", '"@ + FMT_TIMESTAMP@ + "')"@ =~= a + ", 'YYYY-MM-DD HH24:MI:SS.FF6')"@);
    assert(a + ", '"@ + FMT_TIMESTAMP_TZ@ + "')"@ =~= a
        + ", 'YYYY-MM-DD HH24:MI:SS.FF6 TZH:TZM')"@);
}

/// Boolean text reads exactly six literals: `1`, `true` and `TRUE` are true,
/// `0`, `false` and `FALSE` are false, and no other text is a boolean.
pub proof fn law_bool_literals(t: Seq<char>)
    ensures
        bool_of(t) == Some(true) <==> (t == "1"@ || t == "true"@ || t == "TRUE"@),
        bool_of(t) == Some(false) <==> (t == "0"@ || t == "false"@ || t == "FALSE"@),
        bool_of(t) is None <==> !(t == "1"@ || t == "true"@ || t == "TRUE"@ || t == "0"@ || t
            == "false"@ || t == "FALSE"@),
{
    reveal_strlit("1");
    reveal_strlit("true");
    reveal_strlit("TRUE");
    reveal_strlit("0");
    reveal_strlit("false");
    reveal_strlit("FALSE");
    assert("1"@[0] != "0"@[0]);
    assert("1"@ != "0"@);
    assert("true"@.len() != "false"@.len());
    assert("TRUE"@.len() != "FALSE"@.len());
    assert("true"@.len() != "FALSE"@.len());
    assert("TRUE"@.len() != "false"@.len());
    assert("1"@.len() != "false"@.len() && "1"@.len() != "FALSE"@.len());
    assert("0"@.len() != "true"@.len() && "0"@.len() != "TRUE"@.len());
}

/// Booleans survive a round trip: the text the destination binds for a
/// boolean is read back as the same boolean by the source.
pub proof fn law_bool_round_trip(b: bool)
    ensures
        bind_text_of(ArrowValue::Boolean(b)) matches Some(Some(t)) && bool_of(t) == Some(b),
{
    reveal_strlit("1");
    reveal_strlit("0");
    reveal_strlit("true");
    reveal_strlit("TRUE");
    assert("0"@[0] != "1"@[0]);
    assert("0"@ != "1"@);
    assert("0"@.len() != "true"@.len());
    assert("0"@.len() != "TRUE"@.len());
}

/// The Arrow cell of a text column holding `o`.
pub open spec fn utf8_value(o: Option<String>) -> ArrowValue {
    match o {
        Some(s) => ArrowValue::Utf8(s),
        None => ArrowValue::Null(DataType::Utf8),
    }
}

/// The Arrow cell of a binary column holding `o`.
pub open spec fn binary_value(o: Option<Vec<u8>>) -> ArrowValue {
    match o {
        Some(b) => ArrowValue::Binary(b),
        None => ArrowValue::Null(DataType::Binary),
    }
}

/// Text crosses from source to destination unchanged: the value that
/// `build_column` puts into a text column for a row is bound by `cell_to_bind`
/// as exactly the row's cell text, and a NULL (or raw bytes) as a text NULL.
pub proof fn law_text_crosses_unchanged(
    vals: Seq<Option<String>>,
    rows: Seq<Vec<Cell>>,
    idx: int,
    i: int,
)
    requires
        texts_match(vals, rows, idx),
        0 <= i < rows.len(),
    ensures
        bind_text_of(utf8_value(vals[i])) == Some(cell_text(cell_at_spec(rows[i]@, idx))),
{
    assert(opt_view(vals[i]) == cell_text(cell_at_spec(rows[i]@, idx)));
}

/// Bytes cross from source to destination unchanged: the value that
/// `build_column` puts into a binary column for a row (raw bytes, or the UTF-8
/// bytes of text) is bound by `cell_to_bind` as exactly those bytes, and a
/// NULL as a bytes NULL.
pub proof fn law_bytes_cross_unchanged(
    vals: Seq<Option<Vec<u8>>>,
    rows: Seq<Vec<Cell>>,
    idx: int,
    i: int,
)
    requires
        vals.len() == rows.len(),
        forall|k: int|
            0 <= k < rows.len() ==> opt_bytes_view(#[trigger] vals[k]) == cell_bytes(
                cell_at_spec(rows[k]@, idx),
            ),
        0 <= i < rows.len(),
    ensures
        bind_bytes_of(binary_value(vals[i])) == Some(cell_bytes(cell_at_spec(rows[i]@, idx))),
{
    assert(opt_bytes_view(vals[i]) == cell_bytes(cell_at_spec(rows[i]@, idx)));
}

} // verus!
