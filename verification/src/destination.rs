//! The Oracle destination: its config, the DML it runs for each load mode, and
//! the decisions it takes between the database round trips.

use vstd::prelude::*;

use crate::conn::ConnectionConfig;
use crate::ident::{
    fold_ident, folded, has_ident, law_unquote_quoted, quote_ident, quoted, same_ident,
    same_ident_exec,
};
use crate::text::{join, push_decimal, push_joined, decimal, views};
use crate::types::{typed_expr, typed_spec, ColumnDesc, OracleType};

verus! {

// ── Config ───────────────────────────────────────────────────────────────────

/// How the destination commits a load.
#[derive(Debug, Clone, Copy, PartialEq, Eq, Structural)]
pub enum CommitMode {
    /// One transaction for the whole load; array-`INSERT` straight into the
    /// target, `COMMIT` at the end. All-or-nothing, at-least-once.
    Atomic,
    /// Array-`INSERT` the rows into a session-private global temporary table
    /// shaped like the target (created by `prepare`, before any row is
    /// written, so its DDL commits nothing of the load), then apply them all
    /// with one set-based `MERGE` by `merge_key` (`WHEN MATCHED` update / `WHEN
    /// NOT MATCHED` insert) and `COMMIT` at the end. Idempotent by the key, so
    /// exactly-once in effect.
    StagedMerge,
}

impl Default for CommitMode {
    fn default() -> (r: CommitMode)
        ensures
            r == CommitMode::Atomic,
    {
        CommitMode::Atomic
    }
}

/// The destination's config.
#[derive(Debug)]
pub struct OracleDestConfig {
    pub conn: ConnectionConfig,
    /// Target table.
    pub target_table: String,
    pub mode: CommitMode,
    /// Key columns for `staged_merge`'s `ON (...)` match. Must be a unique key
    /// on the target.
    pub merge_key: Vec<String>,
}

/// A config the destination refuses.
#[derive(Debug)]
pub enum ConfigError {
    /// `staged_merge` was asked for without a merge key.
    MissingMergeKey,
}

impl ConfigError {
    pub fn message(&self) -> (r: String)
        ensures
            r@ == "mode 'staged_merge' requires a non-empty merge_key"@,
    {
        String::from_str("mode 'staged_merge' requires a non-empty merge_key")
    }
}

// ── DML text ─────────────────────────────────────────────────────────────────

/// Each name quoted, behind `prefix`.
pub open spec fn prefixed_quoted(prefix: Seq<char>, names: Seq<Seq<char>>) -> Seq<Seq<char>> {
    Seq::new(names.len(), |i: int| prefix + quoted(names[i]))
}

/// `t."c" = s."c"`.
pub open spec fn assign_spec(c: Seq<char>) -> Seq<char> {
    "t."@ + quoted(c) + " = s."@ + quoted(c)
}

/// `INSERT INTO "target" ("c1", ...) VALUES (<bind1>, ...)`.
pub open spec fn insert_sql(target: Seq<char>, cols: Seq<Seq<char>>, binds: Seq<Seq<char>>) -> Seq<
    char,
> {
    "INSERT INTO "@ + quoted(target) + " ("@ + join(prefixed_quoted(""@, cols), ", "@)
        + ") VALUES ("@ + join(binds, ", "@) + ")"@
}

/// Merge key `i` names no incoming column.
pub open spec fn missing_key(cols: Seq<Seq<char>>, keys: Seq<Seq<char>>, i: int) -> bool {
    0 <= i < keys.len() && !has_ident(cols, keys[i])
}

/// `<bind> AS "c"` for each column that has a bind expression.
pub open spec fn source_items(cols: Seq<Seq<char>>, binds: Seq<Seq<char>>) -> Seq<Seq<char>> {
    let n = if cols.len() <= binds.len() {
        cols.len()
    } else {
        binds.len()
    };
    Seq::new(n, |i: int| binds[i] + " AS "@ + quoted(cols[i]))
}

/// `t."c" = s."c"` for each column that is not a key, in column order.
pub open spec fn update_items(cols: Seq<Seq<char>>, keys: Seq<Seq<char>>) -> Seq<Seq<char>>
    decreases cols.len(),
{
    if cols.len() == 0 {
        seq![]
    } else {
        let rest = update_items(cols.drop_last(), keys);
        if has_ident(keys, cols.last()) {
            rest
        } else {
            rest.push(assign_spec(cols.last()))
        }
    }
}

/// `MERGE INTO "target" t USING <source> s ON (key match) WHEN MATCHED THEN
/// UPDATE SET <non-key> WHEN NOT MATCHED THEN INSERT (...) VALUES (...)`; the
/// `WHEN MATCHED` clause is left out when every column is a key.
pub open spec fn merge_using(
    target: Seq<char>,
    source: Seq<char>,
    cols: Seq<Seq<char>>,
    keys: Seq<Seq<char>>,
) -> Seq<char> {
    let updates = update_items(cols, keys);
    "MERGE INTO "@ + quoted(target) + " t USING "@ + source + " s ON ("@ + join(
        Seq::new(keys.len(), |i: int| assign_spec(keys[i])),
        " AND "@,
    ) + ")"@ + (if updates.len() == 0 {
        Seq::<char>::empty()
    } else {
        " WHEN MATCHED THEN UPDATE SET "@ + join(updates, ", "@)
    }) + " WHEN NOT MATCHED THEN INSERT ("@ + join(prefixed_quoted(""@, cols), ", "@)
        + ") VALUES ("@ + join(prefixed_quoted("s."@, cols), ", "@) + ")"@
}

/// `(SELECT <bind1> AS "c1", ... FROM dual)`: one row made of bind values.
pub open spec fn dual_source(cols: Seq<Seq<char>>, binds: Seq<Seq<char>>) -> Seq<char> {
    "(SELECT "@ + join(source_items(cols, binds), ", "@) + " FROM dual)"@
}

/// The row-at-a-time `MERGE` whose source is one row of bind values:
/// `MERGE INTO "target" t USING (SELECT <bind1> AS "c1", ... FROM dual) s ...`.
pub open spec fn merge_sql(
    target: Seq<char>,
    cols: Seq<Seq<char>>,
    binds: Seq<Seq<char>>,
    keys: Seq<Seq<char>>,
) -> Seq<char> {
    merge_using(target, dual_source(cols, binds), cols, keys)
}

/// The staging table of a `staged_merge` load into `target`: the target's
/// catalog name followed by `$STAGE`.
pub open spec fn stage_table(target: Seq<char>) -> Seq<char> {
    folded(target) + "$STAGE"@
}

/// `CREATE GLOBAL TEMPORARY TABLE "<target>$STAGE" ON COMMIT DELETE ROWS AS
/// SELECT * FROM "target" WHERE 1 = 0`: a table shaped like the target whose
/// rows are private to the session and vanish at `COMMIT`.
pub open spec fn create_stage_sql(target: Seq<char>) -> Seq<char> {
    "CREATE GLOBAL TEMPORARY TABLE "@ + quoted(stage_table(target))
        + " ON COMMIT DELETE ROWS AS SELECT * FROM "@ + quoted(target) + " WHERE 1 = 0"@
}

/// The one set-based `MERGE` that applies every staged row to the target:
/// `MERGE INTO "target" t USING "<target>$STAGE" s ...`.
pub open spec fn stage_merge_sql(target: Seq<char>, cols: Seq<Seq<char>>, keys: Seq<Seq<char>>) -> Seq<
    char,
> {
    merge_using(target, quoted(stage_table(target)), cols, keys)
}

fn quoted_list(prefix: &str, names: &[String]) -> (r: Vec<String>)
    ensures
        views(r@) == prefixed_quoted(prefix@, views(names@)),
{
    let mut r: Vec<String> = Vec::new();
    let mut i: usize = 0;
    while i < names.len()
        invariant
            i <= names.len(),
            r.len() == i,
            forall|k: int| 0 <= k < i ==> #[trigger] r@[k]@ == prefix@ + quoted(names@[k]@),
        decreases names.len() - i,
    {
        let mut item = String::new();
        item.append(prefix);
        let q = quote_ident(names[i].as_str());
        item.append(q.as_str());
        r.push(item);
        i = i + 1;
    }
    assert(views(r@) =~= prefixed_quoted(prefix@, views(names@)));
    r
}

fn assign(c: &str) -> (r: String)
    ensures
        r@ == assign_spec(c@),
{
    let q = quote_ident(c);
    let mut r = String::from_str("t.");
    r.append(q.as_str());
    r.append(" = s.");
    r.append(q.as_str());
    r
}

/// Whether one of `names` denotes the same Oracle identifier as `name`.
fn contains_ident(names: &[String], name: &String) -> (r: bool)
    ensures
        r == has_ident(views(names@), name@),
{
    let ghost vs = views(names@);
    let mut j: usize = 0;
    while j < names.len()
        invariant
            j <= names.len(),
            vs == views(names@),
            forall|k: int| 0 <= k < j ==> !same_ident(vs[k], name@),
        decreases names.len() - j,
    {
        if same_ident_exec(names[j].as_str(), name.as_str()) {
            assert(same_ident(vs[j as int], name@));
            return true;
        }
        j = j + 1;
    }
    false
}

/// `INSERT INTO "target" ("c1", ...) VALUES (<bind1>, ...)`, where each
/// `<bind>` is the column's (possibly `TO_*`-wrapped) bind expression.
pub fn build_insert_sql(target: &str, columns: &[String], binds: &[String]) -> (r: String)
    ensures
        r@ == insert_sql(target@, views(columns@), views(binds@)),
{
    let cols = quoted_list("", columns);
    let mut out = String::from_str("INSERT INTO ");
    let t = quote_ident(target);
    out.append(t.as_str());
    out.append(" (");
    push_joined(&mut out, &cols, ", ");
    out.append(") VALUES (");
    let mut bs: Vec<String> = Vec::new();
    let mut i: usize = 0;
    while i < binds.len()
        invariant
            i <= binds.len(),
            bs.len() == i,
            forall|k: int| 0 <= k < i ==> #[trigger] bs@[k]@ == binds@[k]@,
        decreases binds.len() - i,
    {
        bs.push(binds[i].clone());
        i = i + 1;
    }
    assert(views(bs@) =~= views(binds@));
    push_joined(&mut out, &bs, ", ");
    out.append(")");
    out
}

/// A merge key that the incoming data lacks.
#[derive(Debug)]
pub struct MergeKeyError {
    pub key: String,
}

impl MergeKeyError {
    pub fn message(&self) -> (r: String)
        ensures
            r@ == "merge_key column '"@ + self.key@ + "' is not present in the incoming data"@,
    {
        let mut r = String::from_str("merge_key column '");
        r.append(self.key.as_str());
        r.append("' is not present in the incoming data");
        r
    }
}

fn update_list(columns: &[String], keys: &[String]) -> (r: Vec<String>)
    ensures
        views(r@) == update_items(views(columns@), views(keys@)),
{
    let ghost cs = views(columns@);
    let ghost ks = views(keys@);
    let mut r: Vec<String> = Vec::new();
    let mut i: usize = 0;
    while i < columns.len()
        invariant
            i <= columns.len(),
            cs == views(columns@),
            ks == views(keys@),
            views(r@) == update_items(cs.take(i as int), ks),
        decreases columns.len() - i,
    {
        let ghost before = r@;
        let is_key = contains_ident(keys, &columns[i]);
        if !is_key {
            r.push(assign(columns[i].as_str()));
            assert(views(r@) =~= views(before).push(assign_spec(cs[i as int])));
        } else {
            assert(views(r@) =~= views(before));
        }
        proof {
            let t = cs.take(i + 1);
            assert(t.drop_last() =~= cs.take(i as int));
            assert(t.last() == cs[i as int]);
        }
        i = i + 1;
    }
    assert(cs.take(columns.len() as int) =~= cs);
    r
}

/// Checks that every merge key names an incoming column (both denote the same
/// Oracle identifier: `id` is `ID`, as `fold_ident` resolves them); fails on
/// the first one that does not.
fn check_merge_keys(columns: &[String], merge_key: &[String]) -> (r: Result<(), MergeKeyError>)
    ensures
        r is Err <==> exists|i: int| missing_key(views(columns@), views(merge_key@), i),
        r matches Err(e) ==> exists|i: int|
            missing_key(views(columns@), views(merge_key@), i) && e.key@ == merge_key@[i]@
                && forall|j: int| 0 <= j < i ==> !missing_key(views(columns@), views(merge_key@), j),
{
    let ghost cs = views(columns@);
    let ghost ks = views(merge_key@);
    let mut i: usize = 0;
    while i < merge_key.len()
        invariant
            i <= merge_key.len(),
            cs == views(columns@),
            ks == views(merge_key@),
            forall|j: int| 0 <= j < i ==> !missing_key(cs, ks, j),
        decreases merge_key.len() - i,
    {
        if !contains_ident(columns, &merge_key[i]) {
            assert(missing_key(cs, ks, i as int));
            return Err(MergeKeyError { key: merge_key[i].clone() });
        }
        i = i + 1;
    }
    Ok(())
}

/// `MERGE INTO "target" t USING <source> s ...`; see [`merge_using`].
fn build_merge_using(target: &str, source: &str, columns: &[String], merge_key: &[String]) -> (r:
    String)
    ensures
        r@ == merge_using(target@, source@, views(columns@), views(merge_key@)),
{
    let ghost ks = views(merge_key@);
    // Key match: `t."k" = s."k"` joined with AND.
    let mut on: Vec<String> = Vec::new();
    let mut m: usize = 0;
    while m < merge_key.len()
        invariant
            m <= merge_key.len(),
            on.len() == m,
            forall|j: int| 0 <= j < m ==> #[trigger] on@[j]@ == assign_spec(merge_key@[j]@),
        decreases merge_key.len() - m,
    {
        on.push(assign(merge_key[m].as_str()));
        m = m + 1;
    }
    assert(views(on@) =~= Seq::new(ks.len(), |j: int| assign_spec(ks[j])));
    let updates = update_list(columns, merge_key);
    let col_list = quoted_list("", columns);
    let src_list = quoted_list("s.", columns);
    let mut out = String::from_str("MERGE INTO ");
    let t = quote_ident(target);
    out.append(t.as_str());
    out.append(" t USING ");
    out.append(source);
    out.append(" s ON (");
    push_joined(&mut out, &on, " AND ");
    out.append(")");
    if updates.len() > 0 {
        out.append(" WHEN MATCHED THEN UPDATE SET ");
        push_joined(&mut out, &updates, ", ");
    }
    out.append(" WHEN NOT MATCHED THEN INSERT (");
    push_joined(&mut out, &col_list, ", ");
    out.append(") VALUES (");
    push_joined(&mut out, &src_list, ", ");
    out.append(")");
    out
}

/// The `MERGE` statement that upserts one row per bind set into `target` by
/// `merge_key`; see [`merge_sql`]. A merge key names an incoming column when
/// both denote the same Oracle identifier (`id` is `ID`, as `fold_ident`
/// resolves them). Fails on the first merge key that names no incoming column.
pub fn build_merge_sql(target: &str, columns: &[String], binds: &[String], merge_key: &[String]) -> (r:
    Result<String, MergeKeyError>)
    ensures
        r is Err <==> exists|i: int| missing_key(views(columns@), views(merge_key@), i),
        r matches Err(e) ==> exists|i: int|
            missing_key(views(columns@), views(merge_key@), i) && e.key@ == merge_key@[i]@
                && forall|j: int| 0 <= j < i ==> !missing_key(views(columns@), views(merge_key@), j),
        r matches Ok(s) ==> s@ == merge_sql(
            target@,
            views(columns@),
            views(binds@),
            views(merge_key@),
        ),
{
    match check_merge_keys(columns, merge_key) {
        Err(e) => {
            return Err(e);
        },
        Ok(()) => {},
    }
    let ghost cs = views(columns@);
    // Source row: `<bind> AS "c"`, pairing columns with bind expressions.
    let mut src: Vec<String> = Vec::new();
    let mut k: usize = 0;
    while k < columns.len() && k < binds.len()
        invariant
            k <= columns.len(),
            k <= binds.len(),
            src.len() == k,
            forall|j: int|
                0 <= j < k ==> #[trigger] src@[j]@ == binds@[j]@ + " AS "@ + quoted(
                    columns@[j]@,
                ),
        decreases columns.len() - k,
    {
        let mut item = binds[k].clone();
        item.append(" AS ");
        let q = quote_ident(columns[k].as_str());
        item.append(q.as_str());
        src.push(item);
        k = k + 1;
    }
    assert(views(src@) =~= source_items(cs, views(binds@)));
    let mut source = String::from_str("(SELECT ");
    push_joined(&mut source, &src, ", ");
    source.append(" FROM dual)");
    Ok(build_merge_using(target, source.as_str(), columns, merge_key))
}

/// The name of the staging table of a `staged_merge` load into `target`; see
/// [`stage_table`].
pub fn stage_table_name(target: &str) -> (r: String)
    ensures
        r@ == stage_table(target@),
{
    let mut r = fold_ident(target);
    r.append("$STAGE");
    r
}

/// The DDL that creates the staging table of a `staged_merge` load; see
/// [`create_stage_sql`]. It runs before the load's first row: Oracle commits
/// around DDL, and at that point the transaction holds nothing of the load.
pub fn build_create_stage_sql(target: &str) -> (r: String)
    ensures
        r@ == create_stage_sql(target@),
{
    let stage = stage_table_name(target);
    let mut r = String::from_str("CREATE GLOBAL TEMPORARY TABLE ");
    let q = quote_ident(stage.as_str());
    r.append(q.as_str());
    r.append(" ON COMMIT DELETE ROWS AS SELECT * FROM ");
    let t = quote_ident(target);
    r.append(t.as_str());
    r.append(" WHERE 1 = 0");
    r
}

/// The set-based `MERGE` that applies the staged rows of a `staged_merge` load
/// to `target` by `merge_key`; see [`stage_merge_sql`]. Fails on the first
/// merge key that names no incoming column.
pub fn build_stage_merge_sql(target: &str, columns: &[String], merge_key: &[String]) -> (r: Result<
    String,
    MergeKeyError,
>)
    ensures
        r is Err <==> exists|i: int| missing_key(views(columns@), views(merge_key@), i),
        r matches Err(e) ==> exists|i: int|
            missing_key(views(columns@), views(merge_key@), i) && e.key@ == merge_key@[i]@
                && forall|j: int| 0 <= j < i ==> !missing_key(views(columns@), views(merge_key@), j),
        r matches Ok(s) ==> s@ == stage_merge_sql(target@, views(columns@), views(merge_key@)),
{
    match check_merge_keys(columns, merge_key) {
        Err(e) => {
            return Err(e);
        },
        Ok(()) => {},
    }
    let stage = stage_table_name(target);
    let source = quote_ident(stage.as_str());
    Ok(build_merge_using(target, source.as_str(), columns, merge_key))
}

// ── Plugin state ─────────────────────────────────────────────────────────────

/// `str::to_uppercase`: the Unicode upper-case mapping of a string.
pub uninterp spec fn unicode_uppercase(s: Seq<char>) -> Seq<char>;

/// Upper-cases `s` through `str::to_uppercase` (full Unicode case mapping).
/// The contract claims only that the result is the named function of `s`.
#[verifier::external_body]
fn to_uppercase(s: &str) -> (r: String)
    ensures
        r@ == unicode_uppercase(s@),
{
    s.to_uppercase()
}

/// The type recorded for `key`; when a name was described twice the later
/// entry wins, as it does when the description is collected into a map.
pub open spec fn lookup_type(entries: Seq<(String, OracleType)>, key: Seq<char>) -> Option<
    OracleType,
>
    decreases entries.len(),
{
    if entries.len() == 0 {
        None
    } else if entries.last().0@ == key {
        Some(entries.last().1)
    } else {
        lookup_type(entries.drop_last(), key)
    }
}

/// The positional placeholder `:idx`.
pub open spec fn placeholder(idx: nat) -> Seq<char> {
    ":"@ + decimal(idx)
}

/// The bind expression of an incoming column at placeholder `:idx`: wrapped in
/// the target column's `TO_*` conversion when the target column is known.
pub open spec fn bind_spec(entries: Seq<(String, OracleType)>, col: Seq<char>, idx: nat) -> Seq<
    char,
> {
    match lookup_type(entries, unicode_uppercase(col)) {
        Some(t) => typed_spec(placeholder(idx), t),
        None => placeholder(idx),
    }
}

/// The bind expressions of the incoming columns, numbered from 1.
pub open spec fn binds_spec(entries: Seq<(String, OracleType)>, cols: Seq<Seq<char>>) -> Seq<
    Seq<char>,
> {
    Seq::new(cols.len(), |i: int| bind_spec(entries, cols[i], (i + 1) as nat))
}

/// The statement each batch of `cols` runs, once per row, under `cfg`: an
/// `INSERT` into the target for an atomic load, an `INSERT` into the staging
/// table for a `staged_merge` load; `None` when a merge key names no incoming
/// column.
pub open spec fn statement_spec(
    cfg: OracleDestConfig,
    entries: Seq<(String, OracleType)>,
    cols: Seq<Seq<char>>,
) -> Option<Seq<char>> {
    let binds = binds_spec(entries, cols);
    let keys = views(cfg.merge_key@);
    match cfg.mode {
        CommitMode::Atomic => Some(insert_sql(cfg.target_table@, cols, binds)),
        CommitMode::StagedMerge => if exists|i: int| missing_key(cols, keys, i) {
            None
        } else {
            Some(insert_sql(stage_table(cfg.target_table@), cols, binds))
        },
    }
}

/// The statement that applies a load of `cols` to the target before the final
/// `COMMIT`: the set-based `MERGE` of the staged rows for a `staged_merge`
/// load, nothing for an atomic one (its rows are in the target already).
pub open spec fn apply_spec(cfg: OracleDestConfig, cols: Seq<Seq<char>>) -> Option<Seq<char>> {
    let keys = views(cfg.merge_key@);
    match cfg.mode {
        CommitMode::Atomic => None,
        CommitMode::StagedMerge => if exists|i: int| missing_key(cols, keys, i) {
            None
        } else {
            Some(stage_merge_sql(cfg.target_table@, cols, keys))
        },
    }
}

/// What the destination has decided so far: its config, the target table's
/// column types, the incoming column set with its per-row DML and the
/// statement that applies the load, and the rows written.
#[derive(Debug)]
pub struct OracleDestPlugin {
    pub config: Option<OracleDestConfig>,
    /// The incoming column names, fixed by the first batch.
    pub columns: Vec<String>,
    /// Target column (upper-cased name) and its Oracle type, in the order the
    /// target table describes them.
    pub target_types: Vec<(String, OracleType)>,
    /// Per-row bind SQL, built once the column set is known.
    pub sql: Option<String>,
    /// The set-based `MERGE` that applies the staged rows before the final
    /// `COMMIT` (`staged_merge` loads only), built with `sql`.
    pub merge: Option<String>,
    pub rows_written: u64,
}

impl OracleDestPlugin {
    pub fn new() -> (r: OracleDestPlugin)
        ensures
            r.config is None,
            r.columns@.len() == 0,
            r.target_types@.len() == 0,
            r.sql is None,
            r.merge is None,
            r.rows_written == 0,
    {
        OracleDestPlugin {
            config: None,
            columns: Vec::new(),
            target_types: Vec::new(),
            sql: None,
            merge: None,
            rows_written: 0,
        }
    }

    /// Takes the config; `staged_merge` needs a non-empty merge key.
    pub fn configure(&mut self, cfg: OracleDestConfig) -> (r: Result<(), ConfigError>)
        ensures
            r is Err <==> (cfg.mode == CommitMode::StagedMerge && cfg.merge_key.len() == 0),
            r is Err ==> *final(self) == *old(self),
            r is Ok ==> final(self).config == Some(cfg) && final(self).columns == old(
                self,
            ).columns && final(self).target_types == old(self).target_types && final(self).sql
                == old(self).sql && final(self).merge == old(self).merge && final(self).rows_written
                == old(self).rows_written,
    {
        if cfg.mode == CommitMode::StagedMerge && cfg.merge_key.len() == 0 {
            return Err(ConfigError::MissingMergeKey);
        }
        self.config = Some(cfg);
        Ok(())
    }

    /// `SELECT * FROM "target" WHERE 1 = 0`: describes the target table's
    /// columns without reading any row.
    pub fn describe_sql(&self) -> (r: String)
        requires
            self.config is Some,
        ensures
            r@ == "SELECT * FROM "@ + quoted(self.config->0.target_table@) + " WHERE 1 = 0"@,
    {
        let cfg = self.config.as_ref().unwrap();
        let mut r = String::from_str("SELECT * FROM ");
        let t = quote_ident(cfg.target_table.as_str());
        r.append(t.as_str());
        r.append(" WHERE 1 = 0");
        r
    }

    /// The DDL that `prepare` runs before any row is written: the creation of
    /// the staging table for a `staged_merge` load, nothing for an atomic one.
    pub fn stage_ddl(&self) -> (r: Option<String>)
        requires
            self.config is Some,
        ensures
            r is Some <==> self.config->0.mode == CommitMode::StagedMerge,
            r matches Some(s) ==> s@ == create_stage_sql(self.config->0.target_table@),
    {
        let cfg = self.config.as_ref().unwrap();
        match cfg.mode {
            CommitMode::Atomic => None,
            CommitMode::StagedMerge => Some(build_create_stage_sql(cfg.target_table.as_str())),
        }
    }

    /// Records the target table's columns, keyed by upper-cased name.
    pub fn set_target_types(&mut self, described: &[ColumnDesc])
        ensures
            final(self).target_types.len() == described.len(),
            forall|i: int|
                0 <= i < described.len() ==> (#[trigger] final(self).target_types@[i]).0@
                    == unicode_uppercase(described@[i].name@) && final(self).target_types@[i].1
                    == described@[i].oracle_type,
            final(self).config == old(self).config,
            final(self).columns == old(self).columns,
            final(self).sql == old(self).sql,
            final(self).merge == old(self).merge,
            final(self).rows_written == old(self).rows_written,
    {
        let mut types: Vec<(String, OracleType)> = Vec::new();
        let mut i: usize = 0;
        while i < described.len()
            invariant
                i <= described.len(),
                types.len() == i,
                forall|k: int|
                    0 <= k < i ==> (#[trigger] types@[k]).0@ == unicode_uppercase(
                        described@[k].name@,
                    ) && types@[k].1 == described@[k].oracle_type,
            decreases described.len() - i,
        {
            let name = to_uppercase(described[i].name.as_str());
            types.push((name, described[i].oracle_type));
            i = i + 1;
        }
        self.target_types = types;
    }

    /// The explicit bind expression for one incoming column at placeholder
    /// `:idx`: `TO_DATE(:idx, ...)` / `TO_TIMESTAMP*(:idx, ...)` for temporal
    /// target columns, plain `:idx` otherwise (unknown columns pass through).
    pub fn bind_expr(&self, col: &str, idx: usize) -> (r: String)
        ensures
            r@ == bind_spec(self.target_types@, col@, idx as nat),
    {
        let mut p = String::from_str(":");
        push_decimal(&mut p, idx as u64);
        assert(p@ =~= placeholder(idx as nat));
        let key = to_uppercase(col);
        let mut j: usize = self.target_types.len();
        assert(self.target_types@.take(j as int) =~= self.target_types@);
        while j > 0
            invariant
                j <= self.target_types.len(),
                key@ == unicode_uppercase(col@),
                p@ == placeholder(idx as nat),
                lookup_type(self.target_types@, key@) == lookup_type(
                    self.target_types@.take(j as int),
                    key@,
                ),
            decreases j,
        {
            let ghost t = self.target_types@.take(j as int);
            assert(t.drop_last() =~= self.target_types@.take(j - 1));
            assert(t.last() == self.target_types@[j - 1]);
            if self.target_types[j - 1].0 == key {
                return typed_expr(p.as_str(), &self.target_types[j - 1].1);
            }
            j = j - 1;
        }
        p
    }

    /// Fixes the column set, the per-row statement and the statement that
    /// applies the load on the first batch; later batches leave them as they
    /// are. The columns are kept even when the statements cannot be built.
    pub fn plan_statement(&mut self, names: &[String]) -> (r: Result<(), MergeKeyError>)
        requires
            old(self).config is Some,
        ensures
            final(self).config == old(self).config,
            final(self).target_types == old(self).target_types,
            final(self).rows_written == old(self).rows_written,
            old(self).columns.len() > 0 ==> r is Ok && final(self).columns == old(self).columns
                && final(self).sql == old(self).sql && final(self).merge == old(self).merge,
            old(self).columns.len() == 0 ==> {
                let cfg = old(self).config->0;
                let st = statement_spec(cfg, old(self).target_types@, views(names@));
                let ap = apply_spec(cfg, views(names@));
                &&& views(final(self).columns@) == views(names@)
                &&& r is Ok <==> st is Some
                &&& r is Ok ==> (final(self).sql matches Some(s) && s@ == st->0)
                &&& r is Ok ==> (match ap {
                    Some(m) => final(self).merge matches Some(s) && s@ == m,
                    None => final(self).merge is None,
                })
                &&& r is Err ==> final(self).sql == old(self).sql && final(self).merge == old(
                    self,
                ).merge
            },
    {
        if self.columns.len() > 0 {
            return Ok(());
        }
        let mut cols: Vec<String> = Vec::new();
        let mut i: usize = 0;
        while i < names.len()
            invariant
                i <= names.len(),
                cols.len() == i,
                forall|k: int| 0 <= k < i ==> #[trigger] cols@[k]@ == names@[k]@,
            decreases names.len() - i,
        {
            cols.push(names[i].clone());
            i = i + 1;
        }
        assert(views(cols@) =~= views(names@));
        self.columns = cols;
        let mut binds: Vec<String> = Vec::new();
        let mut k: usize = 0;
        while k < self.columns.len()
            invariant
                k <= self.columns.len(),
                binds.len() == k,
                forall|j: int|
                    0 <= j < k ==> #[trigger] binds@[j]@ == bind_spec(
                        self.target_types@,
                        self.columns@[j]@,
                        (j + 1) as nat,
                    ),
            decreases self.columns.len() - k,
        {
            let b = self.bind_expr(self.columns[k].as_str(), k + 1);
            binds.push(b);
            k = k + 1;
        }
        assert(views(binds@) =~= binds_spec(self.target_types@, views(self.columns@)));
        let cfg = self.config.as_ref().unwrap();
        let (sql, merge) = match cfg.mode {
            CommitMode::Atomic => (
                build_insert_sql(cfg.target_table.as_str(), self.columns.as_slice(), binds.as_slice()),
                None,
            ),
            CommitMode::StagedMerge => {
                match build_stage_merge_sql(
                    cfg.target_table.as_str(),
                    self.columns.as_slice(),
                    cfg.merge_key.as_slice(),
                ) {
                    Ok(m) => {
                        let stage = stage_table_name(cfg.target_table.as_str());
                        (
                            build_insert_sql(
                                stage.as_str(),
                                self.columns.as_slice(),
                                binds.as_slice(),
                            ),
                            Some(m),
                        )
                    },
                    Err(e) => {
                        return Err(e);
                    },
                }
            },
        };
        self.sql = Some(sql);
        self.merge = merge;
        Ok(())
    }

    /// Counts `n` more rows as written.
    pub fn record_rows(&mut self, n: u64)
        requires
            old(self).rows_written + n <= u64::MAX,
        ensures
            final(self).rows_written == old(self).rows_written + n,
            final(self).config == old(self).config,
            final(self).columns == old(self).columns,
            final(self).target_types == old(self).target_types,
            final(self).sql == old(self).sql,
            final(self).merge == old(self).merge,
    {
        self.rows_written = self.rows_written + n;
    }
}

// ── Laws ─────────────────────────────────────────────────────────────────────

/// The `MERGE` updates exactly the non-key columns: it has a `WHEN MATCHED`
/// clause if and only if some incoming column is not a merge key, and that
/// clause sets each such column once, in column order, to the source row's
/// value (`t."c" = s."c"`).
pub proof fn law_merge_updates_non_keys(cols: Seq<Seq<char>>, keys: Seq<Seq<char>>)
    ensures
        update_items(cols, keys).len() == 0 <==> forall|i: int|
            0 <= i < cols.len() ==> has_ident(keys, #[trigger] cols[i]),
        update_items(cols, keys) == Seq::new(
            cols.filter(|c: Seq<char>| !has_ident(keys, c)).len(),
            |i: int|
                {
                    let c = cols.filter(|c: Seq<char>| !has_ident(keys, c))[i];
                    "t."@ + quoted(c) + " = s."@ + quoted(c)
                },
        ),
    decreases cols.len(),
{
    reveal_with_fuel(Seq::filter, 1);
    if cols.len() > 0 {
        let init = cols.drop_last();
        law_merge_updates_non_keys(init, keys);
        assert forall|i: int| 0 <= i < init.len() implies init[i] == cols[i] by {}
        let f = cols.filter(|c: Seq<char>| !has_ident(keys, c));
        let fi = init.filter(|c: Seq<char>| !has_ident(keys, c));
        assert(f == (if !has_ident(keys, cols.last()) {
            fi.push(cols.last())
        } else {
            fi
        }));
        assert(update_items(cols, keys) =~= Seq::new(f.len(), |i: int| assign_spec(f[i])));
        if update_items(cols, keys).len() == 0 {
            assert forall|i: int| 0 <= i < cols.len() implies has_ident(keys, #[trigger] cols[i]) by {
                if i < init.len() {
                    assert(init[i] == cols[i]);
                }
            }
        }
    } else {
        assert(update_items(cols, keys) =~= Seq::<Seq<char>>::empty());
    }
}

/// `x` begins with `p`.
pub open spec fn starts_with(x: Seq<char>, p: Seq<char>) -> bool {
    p.len() <= x.len() && x.subrange(0, p.len() as int) == p
}

/// `x` ends with `e`.
pub open spec fn ends_with_seq(x: Seq<char>, e: Seq<char>) -> bool {
    e.len() <= x.len() && x.subrange(x.len() - e.len(), x.len() as int) == e
}

proof fn lemma_starts_with_concat(p: Seq<char>, r: Seq<char>)
    ensures
        starts_with(p + r, p),
{
    assert((p + r).subrange(0, p.len() as int) =~= p);
}

proof fn lemma_starts_with_extend(x: Seq<char>, p: Seq<char>, r: Seq<char>)
    requires
        starts_with(x, p),
    ensures
        starts_with(x + r, p),
{
    assert((x + r).subrange(0, p.len() as int) =~= x.subrange(0, p.len() as int));
}

/// The `MERGE` matches a target row only when it agrees with the source row
/// on every merge key: right after `USING <source> s` comes the `ON` clause
/// `t."k1" = s."k1" AND t."k2" = s."k2" AND ...`, the key conditions in key
/// order joined by `AND`. The row-at-a-time `MERGE` over `dual` and the
/// set-based `MERGE` over the staging table both match this way. A source row
/// that matches nothing is inserted with every incoming column taken from it:
/// the statement ends `WHEN NOT MATCHED THEN INSERT ("c1", ...) VALUES (s."c1",
/// ...)`.
pub proof fn law_merge_matches_on_all_keys(
    target: Seq<char>,
    source: Seq<char>,
    cols: Seq<Seq<char>>,
    binds: Seq<Seq<char>>,
    keys: Seq<Seq<char>>,
)
    ensures
        ({
            let on = join(
                Seq::new(keys.len(), |i: int| "t."@ + quoted(keys[i]) + " = s."@ + quoted(keys[i])),
                " AND "@,
            );
            &&& starts_with(
                merge_using(target, source, cols, keys),
                "MERGE INTO "@ + quoted(target) + " t USING "@ + source + " s ON ("@ + on + ")"@,
            )
            &&& starts_with(
                merge_sql(target, cols, binds, keys),
                "MERGE INTO "@ + quoted(target) + " t USING "@ + dual_source(cols, binds) + " s ON ("@
                    + on + ")"@,
            )
            &&& starts_with(
                stage_merge_sql(target, cols, keys),
                "MERGE INTO "@ + quoted(target) + " t USING "@ + quoted(stage_table(target))
                    + " s ON ("@ + on + ")"@,
            )
            &&& ends_with_seq(
                merge_using(target, source, cols, keys),
                " WHEN NOT MATCHED THEN INSERT ("@ + join(
                    Seq::new(cols.len(), |i: int| quoted(cols[i])),
                    ", "@,
                ) + ") VALUES ("@ + join(
                    Seq::new(cols.len(), |i: int| "s."@ + quoted(cols[i])),
                    ", "@,
                ) + ")"@,
            )
        }),
{
    let on = join(
        Seq::new(keys.len(), |i: int| "t."@ + quoted(keys[i]) + " = s."@ + quoted(keys[i])),
        " AND "@,
    );
    assert(Seq::new(keys.len(), |i: int| assign_spec(keys[i])) =~= Seq::new(
        keys.len(),
        |i: int| "t."@ + quoted(keys[i]) + " = s."@ + quoted(keys[i]),
    ));
    let updates = update_items(cols, keys);
    let upd = if updates.len() == 0 {
        Seq::<char>::empty()
    } else {
        " WHEN MATCHED THEN UPDATE SET "@ + join(updates, ", "@)
    };
    let j1 = join(prefixed_quoted(""@, cols), ", "@);
    let j2 = join(prefixed_quoted("s."@, cols), ", "@);
    let tail = upd + " WHEN NOT MATCHED THEN INSERT ("@ + j1 + ") VALUES ("@ + j2 + ")"@;
    let srcs = seq![source, dual_source(cols, binds), quoted(stage_table(target))];
    assert forall|k: int| 0 <= k < 3 implies starts_with(
        merge_using(target, #[trigger] srcs[k], cols, keys),
        "MERGE INTO "@ + quoted(target) + " t USING "@ + srcs[k] + " s ON ("@ + on + ")"@,
    ) by {
        let p = "MERGE INTO "@ + quoted(target) + " t USING "@ + srcs[k] + " s ON ("@ + on + ")"@;
        let x1 = p + upd;
        let x2 = x1 + " WHEN NOT MATCHED THEN INSERT ("@;
        let x3 = x2 + j1;
        let x4 = x3 + ") VALUES ("@;
        let x5 = x4 + j2;
        lemma_starts_with_concat(p, upd);
        lemma_starts_with_extend(x1, p, " WHEN NOT MATCHED THEN INSERT ("@);
        lemma_starts_with_extend(x2, p, j1);
        lemma_starts_with_extend(x3, p, ") VALUES ("@);
        lemma_starts_with_extend(x4, p, j2);
        lemma_starts_with_extend(x5, p, ")"@);
        assert(merge_using(target, srcs[k], cols, keys) == x5 + ")"@);
    }
    assert(srcs[0] == source);
    assert(srcs[1] == dual_source(cols, binds));
    reveal_strlit("");
    assert forall|i: int| 0 <= i < cols.len() implies #[trigger] prefixed_quoted(""@, cols)[i]
        == quoted(cols[i]) by {
        assert(""@ + quoted(cols[i]) =~= quoted(cols[i]));
    }
    assert(prefixed_quoted(""@, cols) =~= Seq::new(cols.len(), |i: int| quoted(cols[i])));
    assert(prefixed_quoted("s."@, cols) =~= Seq::new(cols.len(), |i: int| "s."@ + quoted(cols[i])));
    let ins = " WHEN NOT MATCHED THEN INSERT ("@ + j1 + ") VALUES ("@ + j2 + ")"@;
    let head = "MERGE INTO "@ + quoted(target) + " t USING "@ + source + " s ON ("@ + on + ")"@
        + upd;
    assert(merge_using(target, source, cols, keys) =~= head + ins);
    assert((head + ins).subrange((head + ins).len() - ins.len(), (head + ins).len() as int)
        =~= ins);
    assert(srcs[2] == quoted(stage_table(target)));
}

/// The `INSERT` names every incoming column, quoted, in order, and gives the
/// bind expressions in the same order: `INSERT INTO "target" ("c1", "c2", ...)
/// VALUES (<bind1>, <bind2>, ...)`.
pub proof fn law_insert_lists_columns_and_binds(
    target: Seq<char>,
    cols: Seq<Seq<char>>,
    binds: Seq<Seq<char>>,
)
    ensures
        insert_sql(target, cols, binds) == "INSERT INTO "@ + quoted(target) + " ("@ + join(
            Seq::new(cols.len(), |i: int| quoted(cols[i])),
            ", "@,
        ) + ") VALUES ("@ + join(binds, ", "@) + ")"@,
{
    reveal_strlit("");
    assert forall|i: int| 0 <= i < cols.len() implies #[trigger] prefixed_quoted(""@, cols)[i]
        == quoted(cols[i]) by {
        assert(""@ + quoted(cols[i]) =~= quoted(cols[i]));
    }
    assert(prefixed_quoted(""@, cols) =~= Seq::new(cols.len(), |i: int| quoted(cols[i])));
}

/// A `staged_merge` load never writes its rows into the target directly: the
/// staging table's quoted name is never the target's.
pub proof fn law_stage_is_not_target(target: Seq<char>)
    ensures
        quoted(stage_table(target)) != quoted(target),
{
    reveal_strlit("$STAGE");
    law_unquote_quoted(stage_table(target));
    law_unquote_quoted(target);
    assert(folded(target).len() == target.len());
    assert(folded(stage_table(target)).len() == stage_table(target).len());
}

/// How a `staged_merge` load reaches the target. `prepare` creates a
/// session-private temporary table `S` shaped like the target, whose rows
/// vanish at `COMMIT`; every batch inserts its rows into `S`, never into the
/// target; and one set-based `MERGE` from `S` applies them all before the
/// final `COMMIT`. Both statements that run once rows are written are DML, so
/// no DDL (and with it no implicit commit) falls inside the load.
pub proof fn law_staged_load_goes_through_stage(
    cfg: OracleDestConfig,
    entries: Seq<(String, OracleType)>,
    cols: Seq<Seq<char>>,
)
    requires
        cfg.mode == CommitMode::StagedMerge,
        !exists|i: int| missing_key(cols, views(cfg.merge_key@), i),
    ensures
        ({
            let t = cfg.target_table@;
            let stage = quoted(stage_table(t));
            &&& starts_with(
                create_stage_sql(t),
                "CREATE GLOBAL TEMPORARY TABLE "@ + stage + " ON COMMIT DELETE ROWS AS SELECT * FROM "@
                    + quoted(t),
            )
            &&& statement_spec(cfg, entries, cols) matches Some(ins) && starts_with(
                ins,
                "INSERT INTO "@ + stage + " ("@,
            )
            &&& apply_spec(cfg, cols) matches Some(m) && starts_with(
                m,
                "MERGE INTO "@ + quoted(t) + " t USING "@ + stage + " s ON ("@,
            )
            &&& stage != quoted(t)
        }),
{
    let t = cfg.target_table@;
    let stage = quoted(stage_table(t));
    let keys = views(cfg.merge_key@);
    let binds = binds_spec(entries, cols);
    law_stage_is_not_target(t);
    // The DDL.
    let c0 = "CREATE GLOBAL TEMPORARY TABLE "@ + stage + " ON COMMIT DELETE ROWS AS SELECT * FROM "@
        + quoted(t);
    lemma_starts_with_concat(c0, " WHERE 1 = 0"@);
    // The staging insert.
    let i0 = "INSERT INTO "@ + stage + " ("@;
    let j1 = join(prefixed_quoted(""@, cols), ", "@);
    lemma_starts_with_concat(i0, j1);
    lemma_starts_with_extend(i0 + j1, i0, ") VALUES ("@);
    lemma_starts_with_extend(i0 + j1 + ") VALUES ("@, i0, join(binds, ", "@));
    lemma_starts_with_extend(i0 + j1 + ") VALUES ("@ + join(binds, ", "@), i0, ")"@);
    // The one MERGE.
    let m0 = "MERGE INTO "@ + quoted(t) + " t USING "@ + stage + " s ON ("@;
    let updates = update_items(cols, keys);
    let on = join(Seq::new(keys.len(), |i: int| assign_spec(keys[i])), " AND "@);
    let upd = if updates.len() == 0 {
        Seq::<char>::empty()
    } else {
        " WHEN MATCHED THEN UPDATE SET "@ + join(updates, ", "@)
    };
    let x1 = m0 + on;
    let x2 = x1 + ")"@;
    let x3 = x2 + upd;
    let x4 = x3 + " WHEN NOT MATCHED THEN INSERT ("@;
    let x5 = x4 + j1;
    let x6 = x5 + ") VALUES ("@;
    let x7 = x6 + join(prefixed_quoted("s."@, cols), ", "@);
    lemma_starts_with_concat(m0, on);
    lemma_starts_with_extend(x1, m0, ")"@);
    lemma_starts_with_extend(x2, m0, upd);
    lemma_starts_with_extend(x3, m0, " WHEN NOT MATCHED THEN INSERT ("@);
    lemma_starts_with_extend(x4, m0, j1);
    lemma_starts_with_extend(x5, m0, ") VALUES ("@);
    lemma_starts_with_extend(x6, m0, join(prefixed_quoted("s."@, cols), ", "@));
    lemma_starts_with_extend(x7, m0, ")"@);
    assert(stage_merge_sql(t, cols, keys) == x7 + ")"@);
}

/// The sum of a list of row counts.
pub open spec fn total_rows(counts: Seq<nat>) -> nat
    decreases counts.len(),
{
    if counts.len() == 0 {
        0
    } else {
        total_rows(counts.drop_last()) + counts.last()
    }
}

/// The rows written add up: starting from a fresh destination, after a run of
/// states where each successful batch records its row count (and nothing else
/// touches the count), the count is the sum of those batches' rows.
pub proof fn law_rows_written_sum(states: Seq<OracleDestPlugin>, counts: Seq<nat>)
    requires
        states.len() == counts.len() + 1,
        states[0].rows_written == 0,
        forall|k: int|
            0 <= k < counts.len() ==> #[trigger] states[k + 1].rows_written == states[k].rows_written
                + counts[k],
    ensures
        states.last().rows_written == total_rows(counts),
    decreases counts.len(),
{
    if counts.len() > 0 {
        let n = counts.len() - 1;
        let s0 = states.drop_last();
        let c0 = counts.drop_last();
        assert forall|k: int| 0 <= k < c0.len() implies #[trigger] s0[k + 1].rows_written
            == s0[k].rows_written + c0[k] by {
            assert(states[k + 1].rows_written == states[k].rows_written + counts[k]);
        }
        law_rows_written_sum(s0, c0);
        assert(states[n + 1].rows_written == states[n].rows_written + counts[n]);
    }
}

} // verus!
