use loadsmith_oracle::conn::{default_host, default_port, ConnectionConfig};
use loadsmith_oracle::source::{
    default_batch_size, describe_query_sql, IncrementalConfig, OracleConfig, OracleSourcePlugin,
};
use loadsmith_oracle::types::{Cell, ColumnDesc, OracleType};

fn plugin_with(query: &str, cursor: Option<&str>) -> OracleSourcePlugin {
    let mut p = OracleSourcePlugin::new();
    p.query = query.to_string();
    p.select_list = "\"ID\", \"TS\"".to_string();
    p.cursor_column = cursor.map(String::from);
    p
}

fn conn() -> ConnectionConfig {
    ConnectionConfig {
        host: default_host(),
        port: default_port(),
        service_name: Some("FREEPDB1".into()),
        sid: None,
        user: "lab".into(),
        password: "lab".into(),
        tls: None,
        connect_timeout: None,
    }
}

#[test]
fn config_deserializes_minimal() {
    // The config `{service_name, user, password, query}` with every other key
    // at its default.
    let cfg = OracleConfig {
        conn: conn(),
        query: "SELECT 1 FROM dual".into(),
        batch_size: default_batch_size(),
        incremental: None,
    };
    assert_eq!(cfg.conn.user, "lab");
    assert_eq!(cfg.batch_size, 1000);
    assert!(cfg.incremental.is_none());
}

#[test]
fn build_query_plain_projects_over_subquery() {
    let p = plugin_with("SELECT id, ts FROM t", None);
    assert_eq!(p.build_query(), "SELECT \"ID\", \"TS\" FROM (SELECT id, ts FROM t) \"_LS\"");
}

#[test]
fn build_query_first_run_orders_without_filter() {
    let p = plugin_with("SELECT id, ts FROM t", Some("TS"));
    assert_eq!(
        p.build_query(),
        "SELECT \"ID\", \"TS\" FROM (SELECT id, ts FROM t) \"_LS\" ORDER BY \"_LS\".\"TS\" ASC"
    );
}

#[test]
fn build_query_resume_filters_and_orders() {
    let mut p = plugin_with("SELECT id, ts FROM t", Some("TS"));
    p.resume_value = Some("2026-06-09 08:00:00.000000".into());
    let q = p.build_query();
    assert!(q.contains("WHERE \"_LS\".\"TS\" > '2026-06-09 08:00:00.000000'"));
    assert!(q.ends_with("ORDER BY \"_LS\".\"TS\" ASC"));
}

#[test]
fn build_query_resume_priority_and_escaping() {
    let mut p = plugin_with("SELECT c FROM t", Some("WE\"IRD"));
    p.initial_value = Some("2000".into());
    p.resume_value = Some("o'brien".into());
    let q = p.build_query();
    assert!(q.contains("\"WE\"\"IRD\""));
    assert!(q.contains("> 'o''brien'"));
    assert!(!q.contains("2000"));
}

#[test]
fn build_query_initial_value_with_typed_cursor() {
    let mut p = plugin_with("SELECT id, ts FROM t", Some("ts"));
    p.initial_value = Some("2026-01-01 00:00:00.000000".into());
    p.cursor_type = Some(OracleType::Timestamp(6));
    assert_eq!(
        p.build_query(),
        "SELECT \"ID\", \"TS\" FROM (SELECT id, ts FROM t) \"_LS\" WHERE \"_LS\".\"TS\" > \
         TO_TIMESTAMP('2026-01-01 00:00:00.000000', 'YYYY-MM-DD HH24:MI:SS.FF6') ORDER BY \"_LS\".\"TS\" ASC"
    );
}

#[test]
fn describe_sql_wraps_query() {
    assert_eq!(describe_query_sql("SELECT 1 FROM dual"), "SELECT * FROM (SELECT 1 FROM dual) \"_LS\" WHERE 1 = 0");
}

fn text_row(id: &str, ts: &str) -> Vec<Cell> {
    vec![Cell::Text(id.into()), Cell::Text(ts.into())]
}

#[test]
fn configure_then_batches_track_watermark() {
    let mut p = OracleSourcePlugin::new();
    let cols = vec![
        ColumnDesc { name: "ID".into(), oracle_type: OracleType::Number(38, 0) },
        ColumnDesc { name: "TS".into(), oracle_type: OracleType::Timestamp(6) },
    ];
    p.configure(
        OracleConfig {
            conn: conn(),
            query: "SELECT id, ts FROM t".into(),
            batch_size: 0,
            incremental: Some(IncrementalConfig { cursor_column: "TS".into(), initial_value: Some("0".into()) }),
        },
        cols,
    );
    assert_eq!(p.batch_size, 1);
    assert_eq!(p.cursor_idx, Some(1));
    assert_eq!(p.cursor_type, Some(OracleType::Timestamp(6)));
    assert_eq!(p.select_list, "\"ID\", TO_CHAR(\"TS\", 'YYYY-MM-DD HH24:MI:SS.FF6') AS \"TS\"");
    assert_eq!(p.schema().unwrap().fields().len(), 2);
    p.resume_from(Some("b".into()));
    assert!(p.build_query().contains("> TO_TIMESTAMP('b', "));
    p.batch_size = 2;
    assert!(p.needs_load());
    p.set_rows(vec![text_row("1", "a"), text_row("2", "b"), vec![Cell::Text("3".into()), Cell::Null]]);
    assert!(!p.needs_load());
    assert_eq!(p.next_batch_range(), Some((0, 2)));
    assert_eq!(p.current_watermark().as_deref(), Some("b"));
    p.advance_to(2);
    assert_eq!(p.next_batch_range(), Some((2, 3)));
    // A NULL cursor keeps the previous watermark.
    assert_eq!(p.current_watermark().as_deref(), Some("b"));
    p.advance_to(3);
    assert_eq!(p.next_batch_range(), None);
}

#[test]
fn configure_matches_cursor_as_oracle_names() {
    let mut p = OracleSourcePlugin::new();
    p.configure(
        OracleConfig {
            conn: conn(),
            query: "q".into(),
            batch_size: 50,
            incremental: Some(IncrementalConfig { cursor_column: "ts".into(), initial_value: None }),
        },
        vec![ColumnDesc { name: "TS".into(), oracle_type: OracleType::Date }],
    );
    // The config name finds the catalog's upper-cased column.
    assert_eq!(p.cursor_idx, Some(0));
    assert_eq!(p.cursor_type, Some(OracleType::Date));
    assert_eq!(p.batch_size, 50);
    assert_eq!(p.build_query(), "SELECT TO_CHAR(\"TS\", 'YYYY-MM-DD HH24:MI:SS') AS \"TS\" FROM (q) \"_LS\" ORDER BY \"_LS\".\"TS\" ASC");
    p.configure(
        OracleConfig {
            conn: conn(),
            query: "q".into(),
            batch_size: 50,
            incremental: Some(IncrementalConfig { cursor_column: "missing".into(), initial_value: None }),
        },
        vec![ColumnDesc { name: "TS".into(), oracle_type: OracleType::Date }],
    );
    assert_eq!(p.cursor_idx, None);
    assert_eq!(p.cursor_type, None);
}

#[test]
fn batches_partition_rows() {
    let mut p = OracleSourcePlugin::new();
    p.batch_size = 3;
    p.set_rows((0..7).map(|i| vec![Cell::Text(i.to_string())]).collect());
    let mut ranges = Vec::new();
    while let Some((start, end)) = p.next_batch_range() {
        ranges.push((start, end));
        p.advance_to(end);
    }
    assert_eq!(ranges, vec![(0, 3), (3, 6), (6, 7)]);
    // Without a cursor no watermark is tracked.
    assert_eq!(p.current_watermark(), None);
}

#[test]
fn resume_value_overrides_initial_value() {
    let mut a = plugin_with("SELECT 1", Some("c"));
    a.initial_value = Some("1".into());
    a.resume_value = Some("9".into());
    let mut b = plugin_with("SELECT 1", Some("c"));
    b.initial_value = Some("2".into());
    b.resume_value = Some("9".into());
    assert_eq!(a.build_query(), b.build_query());
    let mut c = plugin_with("SELECT 1", None);
    c.resume_value = Some("9".into());
    assert_eq!(c.build_query(), "SELECT \"ID\", \"TS\" FROM (SELECT 1) \"_LS\"");
}

#[test]
fn lower_case_cursor_drives_watermark() {
    let mut p = OracleSourcePlugin::new();
    p.configure(
        OracleConfig {
            conn: conn(),
            query: "q".into(),
            batch_size: 2,
            incremental: Some(IncrementalConfig { cursor_column: "event_sequence".into(), initial_value: None }),
        },
        vec![
            ColumnDesc { name: "ID".into(), oracle_type: OracleType::Number(38, 0) },
            ColumnDesc { name: "EVENT_SEQUENCE".into(), oracle_type: OracleType::Number(38, 0) },
        ],
    );
    assert_eq!(p.cursor_idx, Some(1));
    p.set_rows(vec![text_row("a", "1"), text_row("b", "2"), text_row("c", "3")]);
    let mut seen = Vec::new();
    while let Some((s, e)) = p.next_batch_range() {
        seen.extend(p.rows[s..e].iter().map(|r| r[0].text().unwrap().to_string()));
        p.advance_to(e);
    }
    assert_eq!(seen, vec!["a", "b", "c"]);
    assert_eq!(p.current_watermark().as_deref(), Some("3"));
}
