use loadsmith_oracle::conn::{default_host, default_port, ConnectionConfig};
use loadsmith_oracle::destination::{
    build_create_stage_sql, build_insert_sql, build_merge_sql, build_stage_merge_sql,
    stage_table_name, CommitMode, OracleDestConfig, OracleDestPlugin,
};
use loadsmith_oracle::types::{ColumnDesc, OracleType};

fn conn() -> ConnectionConfig {
    ConnectionConfig {
        host: default_host(),
        port: default_port(),
        service_name: Some("S".into()),
        sid: None,
        user: "u".into(),
        password: "p".into(),
        tls: None,
        connect_timeout: None,
    }
}

fn dest_cfg(target: &str, mode: CommitMode, merge_key: &[&str]) -> OracleDestConfig {
    OracleDestConfig {
        conn: conn(),
        target_table: target.into(),
        mode,
        merge_key: merge_key.iter().map(|k| k.to_string()).collect(),
    }
}

#[test]
fn config_requires_merge_key_for_staged_merge() {
    let mut p = OracleDestPlugin::new();
    assert!(p.configure(dest_cfg("events", CommitMode::StagedMerge, &[])).is_err());
    assert!(p.configure(dest_cfg("events", CommitMode::StagedMerge, &["id"])).is_ok());
}

#[test]
fn default_mode_is_atomic() {
    let mode: CommitMode = Default::default();
    assert_eq!(mode, CommitMode::Atomic);
}

// Plain positional binds (no temporal columns): bind == ":idx".
fn plain_binds(n: usize) -> Vec<String> {
    (1..=n).map(|i| format!(":{i}")).collect()
}

#[test]
fn insert_sql_positional_binds() {
    let cols = vec!["ID".to_string(), "NAME".to_string()];
    assert_eq!(
        build_insert_sql("EVENTS", &cols, &plain_binds(2)),
        "INSERT INTO \"EVENTS\" (\"ID\", \"NAME\") VALUES (:1, :2)"
    );
}

#[test]
fn insert_sql_wraps_temporal_binds() {
    let cols = vec!["ID".to_string(), "TS".to_string()];
    let binds = vec![":1".to_string(), "TO_TIMESTAMP(:2, 'YYYY-MM-DD HH24:MI:SS.FF6')".to_string()];
    assert_eq!(
        build_insert_sql("EVENTS", &cols, &binds),
        "INSERT INTO \"EVENTS\" (\"ID\", \"TS\") VALUES (:1, TO_TIMESTAMP(:2, 'YYYY-MM-DD HH24:MI:SS.FF6'))"
    );
}

#[test]
fn merge_sql_updates_non_key() {
    let cols = vec!["ID".to_string(), "NAME".to_string(), "TS".to_string()];
    let keys = vec!["ID".to_string()];
    let sql = build_merge_sql("EVENTS", &cols, &plain_binds(3), &keys).unwrap();
    assert!(sql.contains("USING (SELECT :1 AS \"ID\", :2 AS \"NAME\", :3 AS \"TS\" FROM dual) s"));
    assert!(sql.contains("ON (t.\"ID\" = s.\"ID\")"));
    assert!(sql.contains("WHEN MATCHED THEN UPDATE SET t.\"NAME\" = s.\"NAME\", t.\"TS\" = s.\"TS\""));
    assert!(sql.contains("WHEN NOT MATCHED THEN INSERT (\"ID\", \"NAME\", \"TS\") VALUES (s.\"ID\", s.\"NAME\", s.\"TS\")"));
}

#[test]
fn merge_sql_all_keys_inserts_only() {
    let cols = vec!["A".to_string(), "B".to_string()];
    let keys = vec!["A".to_string(), "B".to_string()];
    let sql = build_merge_sql("T", &cols, &plain_binds(2), &keys).unwrap();
    assert!(!sql.contains("WHEN MATCHED"));
    assert!(sql.contains("WHEN NOT MATCHED THEN INSERT"));
}

#[test]
fn merge_sql_rejects_unknown_key() {
    let cols = vec!["A".to_string()];
    assert!(build_merge_sql("T", &cols, &plain_binds(1), &["B".to_string()]).is_err());
}

#[test]
fn merge_sql_exact_text_and_first_missing_key() {
    let cols = vec!["id".to_string(), "v".to_string()];
    let keys = vec!["id".to_string(), "k2".to_string()];
    let sql = build_merge_sql("events", &cols, &plain_binds(2), &keys[..1]).unwrap();
    assert_eq!(
        sql,
        "MERGE INTO \"EVENTS\" t USING (SELECT :1 AS \"ID\", :2 AS \"V\" FROM dual) s ON (t.\"ID\" = s.\"ID\") \
         WHEN MATCHED THEN UPDATE SET t.\"V\" = s.\"V\" WHEN NOT MATCHED THEN INSERT (\"ID\", \"V\") VALUES (s.\"ID\", s.\"V\")"
    );
    let e = build_merge_sql("events", &cols, &plain_binds(2), &["x".into(), "y".into()]).unwrap_err();
    assert_eq!(e.key, "x");
    assert_eq!(e.message(), "merge_key column 'x' is not present in the incoming data");
    let e = build_merge_sql("events", &cols, &plain_binds(2), &keys).unwrap_err();
    assert_eq!(e.key, "k2");
    // A key names a column as Oracle resolves identifiers: "ID" is the incoming "id".
    let sql = build_merge_sql("events", &cols, &plain_binds(2), &["ID".to_string()]).unwrap();
    assert!(sql.contains("ON (t.\"ID\" = s.\"ID\") WHEN MATCHED THEN UPDATE SET t.\"V\" = s.\"V\" WHEN"));
    // A quoted-case name is not folded.
    assert!(build_merge_sql("events", &["Mixed Case".to_string()], &plain_binds(1), &["mixed case".to_string()]).is_err());
}

#[test]
fn merge_sql_pairs_columns_with_available_binds() {
    let cols = vec!["A".to_string(), "B".to_string()];
    let sql = build_merge_sql("T", &cols, &plain_binds(1), &["A".to_string()]).unwrap();
    assert!(sql.contains("USING (SELECT :1 AS \"A\" FROM dual) s"));
}

#[test]
fn insert_sql_empty_columns() {
    assert_eq!(build_insert_sql("t", &[], &[]), "INSERT INTO \"T\" () VALUES ()");
}

#[test]
fn plugin_plans_insert_with_typed_binds() {
    let mut p = OracleDestPlugin::new();
    p.configure(dest_cfg("events_sink", CommitMode::Atomic, &[])).unwrap();
    assert_eq!(p.describe_sql(), "SELECT * FROM \"EVENTS_SINK\" WHERE 1 = 0");
    p.set_target_types(&[
        ColumnDesc { name: "id".into(), oracle_type: OracleType::Number(38, 0) },
        ColumnDesc { name: "TS".into(), oracle_type: OracleType::Timestamp(6) },
        ColumnDesc { name: "D".into(), oracle_type: OracleType::Date },
    ]);
    assert_eq!(p.target_types[0].0, "ID");
    assert_eq!(p.bind_expr("ts", 2), "TO_TIMESTAMP(:2, 'YYYY-MM-DD HH24:MI:SS.FF6')");
    assert_eq!(p.bind_expr("unknown", 12), ":12");
    let names = vec!["id".to_string(), "ts".to_string(), "d".to_string()];
    p.plan_statement(&names).unwrap();
    assert_eq!(
        p.sql.as_deref().unwrap(),
        "INSERT INTO \"EVENTS_SINK\" (\"ID\", \"TS\", \"D\") VALUES (:1, TO_TIMESTAMP(:2, 'YYYY-MM-DD HH24:MI:SS.FF6'), TO_DATE(:3, 'YYYY-MM-DD HH24:MI:SS'))"
    );
    // Later batches keep the plan.
    p.plan_statement(&["other".to_string()]).unwrap();
    assert_eq!(p.columns, names);
    p.record_rows(3);
    p.record_rows(4);
    assert_eq!(p.rows_written, 7);
}

#[test]
fn plugin_keeps_columns_when_merge_key_missing() {
    let mut p = OracleDestPlugin::new();
    p.configure(dest_cfg("t", CommitMode::StagedMerge, &["k"])).unwrap();
    let e = p.plan_statement(&["a".to_string()]).unwrap_err();
    assert_eq!(e.key, "k");
    assert!(p.sql.is_none());
    assert!(p.merge.is_none());
    assert_eq!(p.columns, vec!["a".to_string()]);
}

#[test]
fn atomic_load_has_no_stage() {
    let mut p = OracleDestPlugin::new();
    p.configure(dest_cfg("events", CommitMode::Atomic, &[])).unwrap();
    assert!(p.stage_ddl().is_none());
    p.plan_statement(&["id".to_string()]).unwrap();
    assert_eq!(p.sql.as_deref().unwrap(), "INSERT INTO \"EVENTS\" (\"ID\") VALUES (:1)");
    assert!(p.merge.is_none());
}

#[test]
fn stage_table_names() {
    assert_eq!(stage_table_name("events_sink"), "EVENTS_SINK$STAGE");
    assert_eq!(stage_table_name("My Table"), "My Table$STAGE");
}

#[test]
fn create_stage_sql_exact_text() {
    assert_eq!(
        build_create_stage_sql("events_sink"),
        "CREATE GLOBAL TEMPORARY TABLE \"EVENTS_SINK$STAGE\" ON COMMIT DELETE ROWS AS SELECT * FROM \"EVENTS_SINK\" WHERE 1 = 0"
    );
    assert_eq!(
        build_create_stage_sql("My \"T\""),
        "CREATE GLOBAL TEMPORARY TABLE \"My \"\"T\"\"$STAGE\" ON COMMIT DELETE ROWS AS SELECT * FROM \"My \"\"T\"\"\" WHERE 1 = 0"
    );
}

#[test]
fn stage_merge_sql_is_one_set_based_merge() {
    let cols = vec!["id".to_string(), "name".to_string(), "ts".to_string()];
    let sql = build_stage_merge_sql("events", &cols, &["ID".to_string()]).unwrap();
    assert_eq!(
        sql,
        "MERGE INTO \"EVENTS\" t USING \"EVENTS$STAGE\" s ON (t.\"ID\" = s.\"ID\") WHEN MATCHED THEN UPDATE SET t.\"NAME\" = s.\"NAME\", t.\"TS\" = s.\"TS\" WHEN NOT MATCHED THEN INSERT (\"ID\", \"NAME\", \"TS\") VALUES (s.\"ID\", s.\"NAME\", s.\"TS\")"
    );
    assert!(!sql.contains("dual"));
    let all_keys = build_stage_merge_sql("t", &["a".to_string()], &["a".to_string()]).unwrap();
    assert_eq!(
        all_keys,
        "MERGE INTO \"T\" t USING \"T$STAGE\" s ON (t.\"A\" = s.\"A\") WHEN NOT MATCHED THEN INSERT (\"A\") VALUES (s.\"A\")"
    );
    let e = build_stage_merge_sql("t", &["a".to_string()], &["a".to_string(), "b".to_string()]).unwrap_err();
    assert_eq!(e.key, "b");
}

#[test]
fn staged_merge_stages_rows_then_merges_once() {
    let mut p = OracleDestPlugin::new();
    p.configure(dest_cfg("events_sink", CommitMode::StagedMerge, &["id"])).unwrap();
    assert_eq!(
        p.stage_ddl().unwrap(),
        "CREATE GLOBAL TEMPORARY TABLE \"EVENTS_SINK$STAGE\" ON COMMIT DELETE ROWS AS SELECT * FROM \"EVENTS_SINK\" WHERE 1 = 0"
    );
    p.set_target_types(&[
        ColumnDesc { name: "ID".into(), oracle_type: OracleType::Number(38, 0) },
        ColumnDesc { name: "TS".into(), oracle_type: OracleType::Timestamp(6) },
    ]);
    let names = vec!["id".to_string(), "ts".to_string()];
    p.plan_statement(&names).unwrap();
    assert_eq!(
        p.sql.as_deref().unwrap(),
        "INSERT INTO \"EVENTS_SINK$STAGE\" (\"ID\", \"TS\") VALUES (:1, TO_TIMESTAMP(:2, 'YYYY-MM-DD HH24:MI:SS.FF6'))"
    );
    assert_eq!(
        p.merge.as_deref().unwrap(),
        "MERGE INTO \"EVENTS_SINK\" t USING \"EVENTS_SINK$STAGE\" s ON (t.\"ID\" = s.\"ID\") WHEN MATCHED THEN UPDATE SET t.\"TS\" = s.\"TS\" WHEN NOT MATCHED THEN INSERT (\"ID\", \"TS\") VALUES (s.\"ID\", s.\"TS\")"
    );
    // Later batches keep both statements.
    p.plan_statement(&["other".to_string()]).unwrap();
    assert!(p.sql.as_deref().unwrap().starts_with("INSERT INTO \"EVENTS_SINK$STAGE\""));
    assert!(p.merge.as_deref().unwrap().starts_with("MERGE INTO \"EVENTS_SINK\""));
}

#[test]
fn later_described_type_wins() {
    let mut p = OracleDestPlugin::new();
    p.set_target_types(&[
        ColumnDesc { name: "x".into(), oracle_type: OracleType::Date },
        ColumnDesc { name: "X".into(), oracle_type: OracleType::Number(1, 0) },
    ]);
    assert_eq!(p.bind_expr("x", 1), ":1");
    // Unicode upper-casing of the incoming column name.
    p.set_target_types(&[ColumnDesc { name: "STRASSE".into(), oracle_type: OracleType::Date }]);
    assert_eq!(p.bind_expr("straße", 1), "TO_DATE(:1, 'YYYY-MM-DD HH24:MI:SS')");
}

#[test]
fn rows_written_sum_batches() {
    let mut p = OracleDestPlugin::new();
    for n in [5u64, 0, 7] {
        p.record_rows(n);
    }
    assert_eq!(p.rows_written, 12);
}
