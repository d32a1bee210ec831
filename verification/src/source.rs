//! The Oracle source: its config, the query it runs (optionally incremental),
//! and the decisions it takes between the database round trips. Rows are
//! fetched once and then handed out in `batch_size` chunks.

use vstd::prelude::*;

use crate::conn::ConnectionConfig;
use crate::ident::{quote_ident, quoted, same_ident, same_ident_exec};
use crate::text::{
    chars_of, escape_doubled, lemma_unescape_escape, push_char, push_escaped, unescape_doubled,
};
use crate::types::{
    cell_at_spec, cell_text, projected_select, select_items, typed_expr, typed_spec, Cell,
    ColumnDesc, OracleType, Schema,
};

verus! {

// ── Config ───────────────────────────────────────────────────────────────────

/// Incremental load. The core persists the high watermark of `cursor_column`
/// and hands it back on the next run; the source resumes reading strictly
/// after it.
#[derive(Debug)]
pub struct IncrementalConfig {
    pub cursor_column: String,
    /// Watermark to use on the very first run (no persisted state yet).
    pub initial_value: Option<String>,
}

/// The source's config.
#[derive(Debug)]
pub struct OracleConfig {
    pub conn: ConnectionConfig,
    pub query: String,
    pub batch_size: usize,
    pub incremental: Option<IncrementalConfig>,
}

/// The batch size used when the config names none.
pub fn default_batch_size() -> (r: usize)
    ensures
        r == 1000,
{
    1000
}

// ── Query text ───────────────────────────────────────────────────────────────

/// A SQL string literal holding `v`, quotes doubled.
pub open spec fn literal_spec(v: Seq<char>) -> Seq<char> {
    seq!['\''] + escape_doubled(v, '\'') + seq!['\'']
}

/// The text a SQL string literal denotes, or `None` when `t` is not one
/// well-formed literal.
pub open spec fn unliteral(t: Seq<char>) -> Option<Seq<char>> {
    if t.len() >= 2 && t[0] == '\'' && t.last() == '\'' {
        unescape_doubled(t.subrange(1, t.len() - 1), '\'')
    } else {
        None
    }
}

/// The watermark a run resumes after: the persisted one, else the initial one.
pub open spec fn watermark(resume: Option<String>, initial: Option<String>) -> Option<Seq<char>> {
    match resume {
        Some(r) => Some(r@),
        None => match initial {
            Some(i) => Some(i@),
            None => None,
        },
    }
}

/// The query actually run: the projected column list over the user query as a
/// subquery; with a cursor, filtered `> watermark` (in the cursor type's `TO_*`
/// conversion) when there is a watermark, and ordered by the cursor ascending.
pub open spec fn query_spec(
    select_list: Seq<char>,
    query: Seq<char>,
    cursor: Option<Seq<char>>,
    bound: Option<Seq<char>>,
    cursor_type: Option<OracleType>,
) -> Seq<char> {
    let base = "SELECT "@ + select_list + " FROM ("@ + query + ") \"_LS\""@;
    match cursor {
        None => base,
        Some(col) => {
            let ident = quoted(col);
            let filter = match bound {
                Some(v) => {
                    let lit = literal_spec(v);
                    let rhs = match cursor_type {
                        Some(t) => typed_spec(lit, t),
                        None => lit,
                    };
                    " WHERE \"_LS\"."@ + ident + " > "@ + rhs
                },
                None => Seq::<char>::empty(),
            };
            base + filter + " ORDER BY \"_LS\"."@ + ident + " ASC"@
        },
    }
}

/// `SELECT * FROM (query) "_LS" WHERE 1 = 0`: describes the column set of the
/// user query without fetching data.
pub fn describe_query_sql(query: &str) -> (r: String)
    ensures
        r@ == "SELECT * FROM ("@ + query@ + ") \"_LS\" WHERE 1 = 0"@,
{
    let mut r = String::from_str("SELECT * FROM (");
    r.append(query);
    r.append(") \"_LS\" WHERE 1 = 0");
    r
}

/// The first described column that `name` denotes.
pub open spec fn is_first_named(cols: Seq<ColumnDesc>, name: Seq<char>, i: int) -> bool {
    &&& 0 <= i < cols.len()
    &&& same_ident(cols[i].name@, name)
    &&& forall|j: int| 0 <= j < i ==> !same_ident(cols[j].name@, name)
}

fn position_of(cols: &Vec<ColumnDesc>, name: &String) -> (r: Option<usize>)
    ensures
        r matches Some(i) ==> is_first_named(cols@, name@, i as int),
        r is None ==> forall|j: int| 0 <= j < cols.len() ==> !same_ident(cols@[j].name@, name@),
{
    let mut i: usize = 0;
    while i < cols.len()
        invariant
            i <= cols.len(),
            forall|j: int| 0 <= j < i ==> !same_ident(cols@[j].name@, name@),
        decreases cols.len() - i,
    {
        if same_ident_exec(cols[i].name.as_str(), name.as_str()) {
            return Some(i);
        }
        i = i + 1;
    }
    None
}

// ── Plugin state ─────────────────────────────────────────────────────────────

/// The source's state between the calls of the plugin protocol: what it was
/// configured with, the incremental cursor and its watermarks, and the buffered
/// rows with the position of the next batch.
#[derive(Debug)]
pub struct OracleSourcePlugin {
    pub schema: Option<Schema>,
    pub batch_size: usize,
    /// The user's base query (inner SELECT).
    pub query: String,
    /// The projected SELECT list (temporal/CLOB columns wrapped in `TO_CHAR`).
    pub select_list: String,
    pub cursor_column: Option<String>,
    pub cursor_idx: Option<usize>,
    pub cursor_type: Option<OracleType>,
    pub initial_value: Option<String>,
    pub resume_value: Option<String>,
    pub last_cursor_value: Option<String>,
    pub rows: Vec<Vec<Cell>>,
    pub pos: usize,
    pub loaded: bool,
}

pub open spec fn opt_str(o: Option<String>) -> Option<Seq<char>> {
    match o {
        Some(s) => Some(s@),
        None => None,
    }
}

impl OracleSourcePlugin {
    pub fn new() -> (r: OracleSourcePlugin)
        ensures
            r.schema is None,
            r.batch_size == 1000,
            r.query@ == Seq::<char>::empty(),
            r.select_list@ == "*"@,
            r.cursor_column is None,
            r.cursor_idx is None,
            r.cursor_type is None,
            r.initial_value is None,
            r.resume_value is None,
            r.last_cursor_value is None,
            r.rows@.len() == 0,
            r.pos == 0,
            !r.loaded,
    {
        OracleSourcePlugin {
            schema: None,
            batch_size: 1000,
            query: String::new(),
            select_list: String::from_str("*"),
            cursor_column: None,
            cursor_idx: None,
            cursor_type: None,
            initial_value: None,
            resume_value: None,
            last_cursor_value: None,
            rows: Vec::new(),
            pos: 0,
            loaded: false,
        }
    }

    /// The query actually run: the projected column list over the user query
    /// as a subquery, optionally filtered `> watermark` and ordered by the
    /// cursor so the last row seen is the new high watermark. The persisted
    /// watermark wins over the initial one; it is written as a quoted string
    /// literal wrapped in the cursor column's `TO_*` conversion.
    pub fn build_query(&self) -> (r: String)
        ensures
            r@ == query_spec(
                self.select_list@,
                self.query@,
                opt_str(self.cursor_column),
                watermark(self.resume_value, self.initial_value),
                self.cursor_type,
            ),
    {
        let mut out = String::from_str("SELECT ");
        out.append(self.select_list.as_str());
        out.append(" FROM (");
        out.append(self.query.as_str());
        out.append(") \"_LS\"");
        match &self.cursor_column {
            None => out,
            Some(col) => {
                let ident = quote_ident(col.as_str());
                let bound: Option<&String> = match &self.resume_value {
                    Some(r) => Some(r),
                    None => match &self.initial_value {
                        Some(i) => Some(i),
                        None => None,
                    },
                };
                match bound {
                    Some(v) => {
                        let mut lit = String::new();
                        push_char(&mut lit, '\'');
                        let cs = chars_of(v.as_str());
                        push_escaped(&mut lit, &cs, '\'');
                        push_char(&mut lit, '\'');
                        let rhs = match &self.cursor_type {
                            Some(t) => typed_expr(lit.as_str(), t),
                            None => lit,
                        };
                        out.append(" WHERE \"_LS\".");
                        out.append(ident.as_str());
                        out.append(" > ");
                        out.append(rhs.as_str());
                    },
                    None => {},
                }
                out.append(" ORDER BY \"_LS\".");
                out.append(ident.as_str());
                out.append(" ASC");
                out
            },
        }
    }

    /// Takes the config and the described columns of the user query: builds
    /// the projected select list and schema, finds the incremental cursor
    /// column (its position and type; the config name is matched against the
    /// catalog names as Oracle resolves identifiers, so `event_sequence` finds
    /// `EVENT_SEQUENCE`), and keeps a batch size of at least 1.
    pub fn configure(&mut self, cfg: OracleConfig, cols: Vec<ColumnDesc>)
        ensures
            final(self).select_list@ == crate::text::join(select_items(cols@), ", "@),
            final(self).schema matches Some(s) && s.fields.len() == cols.len() && forall|i: int|
                0 <= i < cols.len() ==> (#[trigger] s.fields@[i]).name@ == cols@[i].name@
                    && s.fields@[i].data_type == crate::types::arrow_type_of(cols@[i].oracle_type)
                    && s.fields@[i].nullable,
            final(self).query == cfg.query,
            final(self).batch_size == if cfg.batch_size >= 1 {
                cfg.batch_size
            } else {
                1
            },
            cfg.incremental matches Some(inc) ==> {
                &&& final(self).cursor_column == Some(inc.cursor_column)
                &&& final(self).initial_value == inc.initial_value
                &&& final(self).cursor_idx matches Some(i) ==> is_first_named(
                    cols@,
                    inc.cursor_column@,
                    i as int,
                ) && final(self).cursor_type == Some(cols@[i as int].oracle_type)
                &&& final(self).cursor_idx is None ==> final(self).cursor_type is None && forall|
                    j: int,
                | 0 <= j < cols.len() ==> !same_ident(cols@[j].name@, inc.cursor_column@)
            },
            cfg.incremental is None ==> final(self).cursor_column == old(self).cursor_column
                && final(self).initial_value == old(self).initial_value && final(self).cursor_idx
                == old(self).cursor_idx && final(self).cursor_type == old(self).cursor_type,
            final(self).resume_value == old(self).resume_value,
            final(self).last_cursor_value == old(self).last_cursor_value,
            final(self).rows == old(self).rows,
            final(self).pos == old(self).pos,
            final(self).loaded == old(self).loaded,
    {
        let (select_list, schema) = projected_select(cols.as_slice());
        match cfg.incremental {
            Some(inc) => {
                let idx = position_of(&cols, &inc.cursor_column);
                self.cursor_idx = idx;
                self.cursor_type = match idx {
                    Some(i) => Some(cols[i].oracle_type),
                    None => None,
                };
                self.cursor_column = Some(inc.cursor_column);
                self.initial_value = inc.initial_value;
            },
            None => {},
        }
        self.query = cfg.query;
        self.select_list = select_list;
        self.schema = Some(schema);
        self.batch_size = if cfg.batch_size >= 1 {
            cfg.batch_size
        } else {
            1
        };
    }

    /// Records the watermark the core persisted from the previous run.
    pub fn resume_from(&mut self, cursor_value: Option<String>)
        ensures
            *final(self) == (OracleSourcePlugin { resume_value: cursor_value, ..*old(self) }),
    {
        self.resume_value = cursor_value;
    }

    /// The high watermark reached so far: the cursor text of the last row of
    /// the latest batch.
    pub fn current_watermark(&self) -> (r: Option<String>)
        ensures
            opt_str(r) == opt_str(self.last_cursor_value),
    {
        match &self.last_cursor_value {
            Some(v) => Some(v.clone()),
            None => None,
        }
    }

    /// The schema, once configured.
    pub fn schema(&self) -> (r: Option<&Schema>)
        ensures
            r matches Some(s) ==> self.schema == Some(*s),
            r is None ==> self.schema is None,
    {
        self.schema.as_ref()
    }

    /// Whether the rows still have to be fetched.
    pub fn needs_load(&self) -> (r: bool)
        ensures
            r == !self.loaded,
    {
        !self.loaded
    }

    /// Buffers the fetched rows; the next batch starts at the current position.
    pub fn set_rows(&mut self, rows: Vec<Vec<Cell>>)
        ensures
            *final(self) == (OracleSourcePlugin { rows: rows, loaded: true, ..*old(self) }),
    {
        self.rows = rows;
        self.loaded = true;
    }

    /// The rows `[start, end)` of the next batch, or `None` when every row has
    /// been handed out. Rows are ordered by the cursor ascending, so the last
    /// row of the batch carries the largest cursor value seen so far: when it
    /// has cursor text, that text becomes the high watermark.
    pub fn next_batch_range(&mut self) -> (r: Option<(usize, usize)>)
        requires
            old(self).pos < old(self).rows.len() ==> old(self).pos + old(self).batch_size
                <= usize::MAX,
        ensures
            old(self).pos >= old(self).rows.len() <==> r is None,
            r is None ==> *final(self) == *old(self),
            r matches Some((start, end)) ==> {
                &&& start == old(self).pos
                &&& end == batch_end(
                    old(self).pos as nat,
                    old(self).batch_size as nat,
                    old(self).rows.len() as nat,
                )
                &&& start <= end <= old(self).rows.len()
                &&& opt_str(final(self).last_cursor_value) == match old(self).cursor_idx {
                    Some(idx) => if end == start {
                        opt_str(old(self).last_cursor_value)
                    } else {
                        match cell_text(
                        cell_at_spec(old(self).rows@[end - 1]@, idx as int),
                    ) {
                        Some(t) => Some(t),
                        None => opt_str(old(self).last_cursor_value),
                    }},
                    None => opt_str(old(self).last_cursor_value),
                }
                &&& *final(self) == (OracleSourcePlugin {
                    last_cursor_value: final(self).last_cursor_value,
                    ..*old(self)
                })
            },
    {
        if self.pos >= self.rows.len() {
            return None;
        }
        let start = self.pos;
        let end = if self.pos + self.batch_size <= self.rows.len() {
            self.pos + self.batch_size
        } else {
            self.rows.len()
        };
        match self.cursor_idx {
            Some(idx) => if end > start {
                let last = &self.rows[end - 1];
                if idx < last.len() {
                    match last[idx].text() {
                        Some(v) => {
                            self.last_cursor_value = Some(v.to_string());
                        },
                        None => {},
                    }
                }
            } else {
            },
            None => {},
        }
        Some((start, end))
    }

    /// Moves past a batch that was handed out.
    pub fn advance_to(&mut self, end: usize)
        requires
            old(self).pos <= end <= old(self).rows.len(),
        ensures
            *final(self) == (OracleSourcePlugin { pos: end, ..*old(self) }),
    {
        self.pos = end;
    }
}

// ── Laws ─────────────────────────────────────────────────────────────────────

/// The watermark literal is one well-formed SQL string literal that reads back
/// as the watermark: no watermark text can end the literal early.
pub proof fn law_literal_round_trip(v: Seq<char>)
    ensures
        unliteral(literal_spec(v)) == Some(v),
{
    let t = literal_spec(v);
    assert(t.subrange(1, t.len() - 1) =~= escape_doubled(v, '\''));
    lemma_unescape_escape(v, '\'');
}

/// A persisted watermark always wins: once the core hands one back, the
/// initial value no longer changes the query.
pub proof fn law_resume_overrides_initial(
    select_list: Seq<char>,
    query: Seq<char>,
    cursor: Option<Seq<char>>,
    resume: String,
    initial_a: Option<String>,
    initial_b: Option<String>,
    cursor_type: Option<OracleType>,
)
    ensures
        query_spec(select_list, query, cursor, watermark(Some(resume), initial_a), cursor_type)
            == query_spec(select_list, query, cursor, watermark(Some(resume), initial_b), cursor_type),
{
}

/// Without a cursor column the query is the plain projection, whatever the
/// watermarks.
pub proof fn law_plain_query_ignores_watermarks(
    select_list: Seq<char>,
    query: Seq<char>,
    bound: Option<Seq<char>>,
    cursor_type: Option<OracleType>,
)
    ensures
        query_spec(select_list, query, None, bound, cursor_type) == "SELECT "@ + select_list
            + " FROM ("@ + query + ") \"_LS\""@,
{
}

/// The end of the batch that starts at `pos`.
pub open spec fn batch_end(pos: nat, batch_size: nat, len: nat) -> nat {
    if pos + batch_size <= len {
        pos + batch_size
    } else {
        len
    }
}

/// The ranges that successive batches hand out, starting at `pos`.
pub open spec fn batch_ranges(pos: nat, batch_size: nat, len: nat) -> Seq<(nat, nat)>
    decreases len - pos,
    when batch_size >= 1
{
    if pos >= len {
        seq![]
    } else {
        seq![(pos, batch_end(pos, batch_size, len))] + batch_ranges(
            batch_end(pos, batch_size, len),
            batch_size,
            len,
        )
    }
}

/// The ranges of successive `next_batch_range` calls, each followed by
/// `advance_to` its end, are exactly `batch_ranges(pos, batch_size, len)`:
/// one call hands out the first range and leaves the rest.
pub proof fn law_batch_ranges_step(pos: nat, batch_size: nat, len: nat)
    requires
        batch_size >= 1,
        pos < len,
    ensures
        batch_ranges(pos, batch_size, len) == seq![(pos, batch_end(pos, batch_size, len))]
            + batch_ranges(batch_end(pos, batch_size, len), batch_size, len),
{
}

/// Successive batches partition the buffered rows in order: each batch starts
/// where the previous one ended, holds between one and `batch_size` rows (all
/// but the last exactly `batch_size`), and the last one ends at the last row.
pub proof fn law_batches_partition_rows(pos: nat, batch_size: nat, len: nat)
    requires
        batch_size >= 1,
        pos <= len,
    ensures
        ({
            let r = batch_ranges(pos, batch_size, len);
            &&& pos == len <==> r.len() == 0
            &&& r.len() > 0 ==> r[0].0 == pos && r.last().1 == len
            &&& forall|i: int|
                0 <= i < r.len() ==> r[i].0 < r[i].1 <= r[i].0 + batch_size && r[i].1 <= len
            &&& forall|i: int| 0 <= i < r.len() - 1 ==> r[i].1 == r[i + 1].0
            &&& forall|i: int| 0 <= i < r.len() - 1 ==> r[i].1 == r[i].0 + batch_size
        }),
    decreases len - pos,
{
    if pos < len {
        let e = batch_end(pos, batch_size, len);
        law_batches_partition_rows(e, batch_size, len);
        let rest = batch_ranges(e, batch_size, len);
        let r = batch_ranges(pos, batch_size, len);
        assert(r == seq![(pos, e)] + rest);
        assert forall|i: int| 0 <= i < r.len() implies r[i].0 < r[i].1 <= r[i].0 + batch_size
            && r[i].1 <= len by {
            if i > 0 {
                assert(r[i] == rest[i - 1]);
            }
        }
        assert forall|i: int| 0 <= i < r.len() - 1 implies r[i].1 == r[i + 1].0 && r[i].1
            == r[i].0 + batch_size by {
            assert(r[i + 1] == rest[i]);
            if i > 0 {
                assert(r[i] == rest[i - 1]);
            } else {
                assert(rest.len() > 0);
                assert(e < len);
            }
        }
        if rest.len() > 0 {
            assert(r.last() == rest.last());
        }
    }
}

/// The cursor a configured source tracks is the first described column that
/// the configured name denotes: whenever such a column exists, the index that
/// `configure` may record is that column's, so a cursor written in another
/// letter case (`event_sequence` for `EVENT_SEQUENCE`) still drives the
/// watermark that `next_batch_range` takes from the last row.
pub proof fn law_cursor_is_first_denoted_column(
    cols: Seq<ColumnDesc>,
    name: Seq<char>,
    j: int,
    recorded: Option<usize>,
)
    requires
        is_first_named(cols, name, j),
        recorded matches Some(i) ==> is_first_named(cols, name, i as int),
        recorded is None ==> forall|k: int| 0 <= k < cols.len() ==> !same_ident(cols[k].name@, name),
    ensures
        recorded == Some(j as usize),
{
    if let Some(i) = recorded {
        if (i as int) < j {
            assert(!same_ident(cols[i as int].name@, name));
        } else if j < (i as int) {
            assert(!same_ident(cols[j].name@, name));
        }
    } else {
        assert(same_ident(cols[j].name@, name));
    }
}

/// The rows that the ranges hand out, one range after another.
pub open spec fn rows_of_ranges<T>(rows: Seq<T>, ranges: Seq<(nat, nat)>) -> Seq<T>
    decreases ranges.len(),
{
    if ranges.len() == 0 {
        seq![]
    } else {
        rows.subrange(ranges[0].0 as int, ranges[0].1 as int) + rows_of_ranges(
            rows,
            ranges.drop_first(),
        )
    }
}

/// Reading batch after batch from `pos` gives back the buffered rows from
/// `pos` on, in order, none lost and none repeated.
pub proof fn law_batches_concat_to_rows<T>(rows: Seq<T>, pos: nat, batch_size: nat)
    requires
        batch_size >= 1,
        pos <= rows.len(),
    ensures
        rows_of_ranges(rows, batch_ranges(pos, batch_size, rows.len())) == rows.subrange(
            pos as int,
            rows.len() as int,
        ),
    decreases rows.len() - pos,
{
    let len = rows.len();
    let r = batch_ranges(pos, batch_size, len);
    if pos < len {
        let e = batch_end(pos, batch_size, len);
        law_batches_concat_to_rows(rows, e, batch_size);
        assert(r.drop_first() =~= batch_ranges(e, batch_size, len));
        assert(rows.subrange(pos as int, e as int) + rows.subrange(e as int, len as int)
            =~= rows.subrange(pos as int, len as int));
    } else {
        assert(rows.subrange(pos as int, len as int) =~= Seq::<T>::empty());
    }
}

} // verus!
