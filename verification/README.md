# loadsmith_oracle

The Oracle source and destination connector for Loadsmith, on the native Oracle
client (ODPI-C), with its logic verified by Verus.

## Layout

| Path | What |
|------|------|
| `src/text.rs` | string assembly, ASCII folding, Unicode white space, decimal numbers, separated lists, quote doubling |
| `src/ident.rs` | Oracle identifier quoting and folding, with the laws that quoting cannot be escaped and that folding is idempotent |
| `src/conn.rs` | connection config, the `connect_timeout` duration syntax, the TNS connect descriptor |
| `src/calendar.rs` | calendar fields of Arrow dates/timestamps (from `chrono`) and their canonical text |
| `src/types.rs` | Oracle/Arrow type mapping, the projected `SELECT` list, `TO_*` bind wrappers, column building and cell binding |
| `src/source.rs` | the source's query (incremental watermark, ordering) and its batch state |
| `src/destination.rs` | the destination's `INSERT`/`MERGE` statements, the staging table of `staged_merge` loads, and its state between batches |
| `app/` | the plugin binary: serde config parsing, the native client, Arrow arrays, the plugin SDK |
| `tests/` | tests of the library on concrete values |

The destination keeps the target table's column types as a list of
(upper-cased name, type) pairs in the order the table describes them; a lookup
takes the last entry of a name, as a map filled in that order would. (A `String`
keyed map gives the contracts nothing to reason with.)

The library takes and returns plain values; `app/` performs the database round
trips and converts between Arrow/ODPI-C values and the library's types.

A `staged_merge` load creates a global temporary table shaped like the target
(`<TARGET>$STAGE`, rows private to the session and deleted at `COMMIT`) when
it prepares, before any row is written; each batch array-inserts into it, and
finalize applies everything with one set-based `MERGE` before the `COMMIT`.
