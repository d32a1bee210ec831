use loadsmith_oracle::conn::{FMT_DATE, FMT_TIMESTAMP, FMT_TIMESTAMP_TZ};
use loadsmith_oracle::ident::{fold_ident, is_simple_ident, quote_ident};
use loadsmith_oracle::types::{
    build_column, cell_to_bind, oracle_to_arrow, projected_select, typed_expr, ArrowValue,
    BatchError, Bind, BindError, Cell, ColumnDesc, ColumnValues, DataType, Field, OracleType,
    TimeUnit,
};

#[test]
fn number_and_temporal_map_to_utf8() {
    assert_eq!(oracle_to_arrow(&OracleType::Number(38, 0)), DataType::Utf8);
    assert_eq!(oracle_to_arrow(&OracleType::TimestampTZ(6)), DataType::Utf8);
    assert_eq!(oracle_to_arrow(&OracleType::BLOB), DataType::Binary);
    assert_eq!(oracle_to_arrow(&OracleType::BinaryDouble), DataType::Float64);
}

#[test]
fn projection_wraps_temporal_only() {
    let cols = vec![
        ColumnDesc { name: "EVENT_ID".into(), oracle_type: OracleType::Number(38, 0) },
        ColumnDesc { name: "EVENT_TSTZ".into(), oracle_type: OracleType::TimestampTZ(6) },
    ];
    let (select, schema) = projected_select(&cols);
    assert_eq!(
        select,
        "\"EVENT_ID\", TO_CHAR(\"EVENT_TSTZ\", 'YYYY-MM-DD HH24:MI:SS.FF6 TZH:TZM') AS \"EVENT_TSTZ\""
    );
    assert_eq!(schema.fields().len(), 2);
    assert_eq!(schema.field(0).data_type(), &DataType::Utf8);
}

#[test]
fn typed_expr_wraps_temporal() {
    assert_eq!(typed_expr(":1", &OracleType::Date), "TO_DATE(:1, 'YYYY-MM-DD HH24:MI:SS')");
    assert_eq!(typed_expr(":1", &OracleType::Number(10, 2)), ":1");
}

#[test]
fn cell_to_bind_binds_as_text() {
    assert!(matches!(cell_to_bind(ArrowValue::Int64(7)).unwrap(), Bind::Text(Some(s)) if s == "7"));
    assert!(matches!(cell_to_bind(ArrowValue::Null(DataType::Int64)).unwrap(), Bind::Text(None)));
    assert!(matches!(cell_to_bind(ArrowValue::Utf8("ab".into())).unwrap(), Bind::Text(Some(s)) if s == "ab"));
}

#[test]
fn quote_ident_escapes() {
    // Not a simple identifier (embedded quote): quoted verbatim, escaped.
    assert_eq!(quote_ident("A\"B"), "\"A\"\"B\"");
}

#[test]
fn quote_ident_folds_simple_names_to_upper() {
    assert_eq!(quote_ident("events_sink"), "\"EVENTS_SINK\"");
    assert_eq!(quote_ident("id"), "\"ID\"");
    assert_eq!(quote_ident("MixedCase"), "\"MIXEDCASE\"");
    assert_eq!(quote_ident("EVENT_ID"), "\"EVENT_ID\"");
}

#[test]
fn quote_ident_preserves_non_simple_names() {
    assert_eq!(quote_ident("1table"), "\"1table\"");
    assert_eq!(quote_ident("weird name"), "\"weird name\"");
}

#[test]
fn simple_identifier_classes() {
    assert!(is_simple_ident("a$b#c_1"));
    assert!(!is_simple_ident(""));
    assert!(!is_simple_ident("_x"));
    assert!(!is_simple_ident("a.b"));
    assert!(!is_simple_ident("é"));
    assert_eq!(quote_ident("ünïcode"), "\"ünïcode\"");
    assert_eq!(quote_ident(""), "\"\"");
}

#[test]
fn fold_ident_matches_quote_without_quotes() {
    for name in ["id", "Events_Sink", "EVENT_ID", "1table", "weird name"] {
        assert_eq!(format!("\"{}\"", fold_ident(name)), quote_ident(name));
        // Folding a folded name changes nothing.
        assert_eq!(fold_ident(&fold_ident(name)), fold_ident(name));
        assert_eq!(quote_ident(&fold_ident(name)), quote_ident(name));
    }
    assert_eq!(fold_ident("merge_key"), "MERGE_KEY");
    assert_eq!(fold_ident("A\"B"), "A\"B");
}

#[test]
fn projection_covers_every_wrapped_type() {
    let cols = vec![
        ColumnDesc { name: "d".into(), oracle_type: OracleType::Date },
        ColumnDesc { name: "T".into(), oracle_type: OracleType::Timestamp(6) },
        ColumnDesc { name: "l".into(), oracle_type: OracleType::TimestampLTZ(3) },
        ColumnDesc { name: "C".into(), oracle_type: OracleType::CLOB },
        ColumnDesc { name: "I".into(), oracle_type: OracleType::IntervalDS(2, 6) },
        ColumnDesc { name: "B".into(), oracle_type: OracleType::BLOB },
        ColumnDesc { name: "F".into(), oracle_type: OracleType::BinaryFloat },
    ];
    let (select, schema) = projected_select(&cols);
    assert_eq!(
        select,
        "TO_CHAR(\"D\", 'YYYY-MM-DD HH24:MI:SS') AS \"D\", \
         TO_CHAR(\"T\", 'YYYY-MM-DD HH24:MI:SS.FF6') AS \"T\", \
         TO_CHAR(\"L\", 'YYYY-MM-DD HH24:MI:SS.FF6 TZH:TZM') AS \"L\", \
         TO_CHAR(\"C\") AS \"C\", TO_CHAR(\"I\") AS \"I\", \"B\", \"F\""
    );
    assert_eq!(schema.field(5).data_type(), &DataType::Binary);
    assert_eq!(schema.field(6).data_type(), &DataType::Float32);
    assert_eq!(schema.field(0).name(), "d");
    assert!(schema.fields().iter().all(|f| f.is_nullable()));
    let (empty, none) = projected_select(&[]);
    assert_eq!(empty, "");
    assert_eq!(none.fields().len(), 0);
}

#[test]
fn typed_expr_timestamp_variants() {
    assert_eq!(
        typed_expr(":2", &OracleType::Timestamp(6)),
        "TO_TIMESTAMP(:2, 'YYYY-MM-DD HH24:MI:SS.FF6')"
    );
    assert_eq!(
        typed_expr("'x'", &OracleType::TimestampLTZ(6)),
        "TO_TIMESTAMP_TZ('x', 'YYYY-MM-DD HH24:MI:SS.FF6 TZH:TZM')"
    );
    assert_eq!(typed_expr(":3", &OracleType::CLOB), ":3");
}

#[test]
fn cell_text_only_for_text() {
    assert_eq!(Cell::Text("x".into()).text(), Some("x"));
    assert_eq!(Cell::Null.text(), None);
    assert_eq!(Cell::Bytes(vec![1]).text(), None);
}

fn field(name: &str, data_type: DataType) -> Field {
    Field { name: name.into(), data_type, nullable: true }
}

#[test]
fn build_column_per_type() {
    let rows = vec![
        vec![Cell::Text("1".into()), Cell::Text("ab".into())],
        vec![Cell::Null, Cell::Bytes(vec![0, 255])],
        vec![Cell::Text("FALSE".into())],
    ];
    match build_column(&rows, 0, &field("b", DataType::Boolean)).unwrap() {
        ColumnValues::Boolean(v) => assert_eq!(v, vec![Some(true), None, Some(false)]),
        other => panic!("unexpected {other:?}"),
    }
    match build_column(&rows, 1, &field("s", DataType::Utf8)).unwrap() {
        ColumnValues::Utf8(v) => assert_eq!(v, vec![Some("ab".to_string()), None, None]),
        other => panic!("unexpected {other:?}"),
    }
    match build_column(&rows, 1, &field("r", DataType::Binary)).unwrap() {
        ColumnValues::Binary(v) => assert_eq!(v, vec![Some(b"ab".to_vec()), Some(vec![0, 255]), None]),
        other => panic!("unexpected {other:?}"),
    }
    match build_column(&rows, 0, &field("f", DataType::Float64)).unwrap() {
        ColumnValues::Float64(v) => assert_eq!(v, vec![Some("1".to_string()), None, Some("FALSE".to_string())]),
        other => panic!("unexpected {other:?}"),
    }
}

#[test]
fn build_column_errors() {
    let rows = vec![vec![Cell::Text("true".into())], vec![Cell::Text("yes".into())], vec![Cell::Text("no".into())]];
    match build_column(&rows, 0, &field("flag", DataType::Boolean)) {
        Err(BatchError::UnexpectedBool { column, value }) => {
            assert_eq!(column, "flag");
            assert_eq!(value, "yes");
        }
        other => panic!("unexpected {other:?}"),
    }
    match build_column(&rows, 0, &field("n", DataType::Int64)) {
        Err(BatchError::UnsupportedType { column, data_type }) => {
            assert_eq!(column, "n");
            assert_eq!(data_type, DataType::Int64);
        }
        other => panic!("unexpected {other:?}"),
    }
}

fn text(b: Result<Bind, BindError>) -> Option<String> {
    match b {
        Ok(Bind::Text(t)) => t,
        other => panic!("unexpected {other:?}"),
    }
}

#[test]
fn cell_to_bind_numbers_and_booleans() {
    assert_eq!(text(cell_to_bind(ArrowValue::Int32(-42))).unwrap(), "-42");
    assert_eq!(text(cell_to_bind(ArrowValue::Int32(i32::MIN))).unwrap(), "-2147483648");
    assert_eq!(text(cell_to_bind(ArrowValue::Int64(i64::MIN))).unwrap(), "-9223372036854775808");
    assert_eq!(text(cell_to_bind(ArrowValue::Int64(i64::MAX))).unwrap(), "9223372036854775807");
    assert_eq!(text(cell_to_bind(ArrowValue::Int64(0))).unwrap(), "0");
    assert_eq!(text(cell_to_bind(ArrowValue::Boolean(true))).unwrap(), "1");
    assert_eq!(text(cell_to_bind(ArrowValue::Boolean(false))).unwrap(), "0");
    assert_eq!(text(cell_to_bind(ArrowValue::Float("1.5".into()))).unwrap(), "1.5");
    assert_eq!(text(cell_to_bind(ArrowValue::LargeUtf8("big".into()))).unwrap(), "big");
    assert!(matches!(cell_to_bind(ArrowValue::Null(DataType::Binary)).unwrap(), Bind::Bytes(None)));
    assert!(matches!(cell_to_bind(ArrowValue::Null(DataType::Other)).unwrap(), Bind::Text(None)));
    assert!(matches!(cell_to_bind(ArrowValue::Binary(vec![1, 2])).unwrap(), Bind::Bytes(Some(b)) if b == vec![1, 2]));
}

#[test]
fn cell_to_bind_dates() {
    assert_eq!(text(cell_to_bind(ArrowValue::Date32(0))).unwrap(), "1970-01-01 00:00:00");
    assert_eq!(text(cell_to_bind(ArrowValue::Date32(-1))).unwrap(), "1969-12-31 00:00:00");
    assert_eq!(text(cell_to_bind(ArrowValue::Date32(13036))).unwrap(), "2005-09-10 00:00:00");
    assert_eq!(text(cell_to_bind(ArrowValue::Date32(-719162))).unwrap(), "0001-01-01 00:00:00");
    assert_eq!(text(cell_to_bind(ArrowValue::Date32(-719529))).unwrap(), "-0001-12-31 00:00:00");
    assert_eq!(text(cell_to_bind(ArrowValue::Date32(2932897))).unwrap(), "+10000-01-01 00:00:00");
    assert!(matches!(cell_to_bind(ArrowValue::Date32(100_000_000)), Err(BindError::DateOutOfRange(100_000_000))));
}

#[test]
fn cell_to_bind_timestamps() {
    assert_eq!(
        text(cell_to_bind(ArrowValue::Timestamp(TimeUnit::Millisecond, 1_000_123))).unwrap(),
        "1970-01-01 00:16:40.123000"
    );
    assert_eq!(
        text(cell_to_bind(ArrowValue::Timestamp(TimeUnit::Microsecond, 1_780_992_000_000_001))).unwrap(),
        "2026-06-09 08:00:00.000001"
    );
    assert_eq!(
        text(cell_to_bind(ArrowValue::Timestamp(TimeUnit::Microsecond, -1))).unwrap(),
        "1969-12-31 23:59:59.999999"
    );
    assert!(matches!(
        cell_to_bind(ArrowValue::Timestamp(TimeUnit::Second, 5)),
        Err(BindError::UnsupportedTimestampUnit(TimeUnit::Second))
    ));
    assert!(matches!(
        cell_to_bind(ArrowValue::Timestamp(TimeUnit::Nanosecond, 5)),
        Err(BindError::UnsupportedTimestampUnit(TimeUnit::Nanosecond))
    ));
    assert!(matches!(
        cell_to_bind(ArrowValue::Timestamp(TimeUnit::Millisecond, i64::MAX)),
        Err(BindError::TimestampOutOfRange)
    ));
    assert!(matches!(
        cell_to_bind(ArrowValue::Unsupported(DataType::Other)),
        Err(BindError::UnsupportedType(DataType::Other))
    ));
}

#[test]
fn booleans_round_trip_through_bind_and_read() {
    for b in [true, false] {
        let t = text(cell_to_bind(ArrowValue::Boolean(b))).unwrap();
        let rows = vec![vec![Cell::Text(t)]];
        match build_column(&rows, 0, &field("b", DataType::Boolean)).unwrap() {
            ColumnValues::Boolean(v) => assert_eq!(v, vec![Some(b)]),
            other => panic!("unexpected {other:?}"),
        }
    }
}

#[test]
fn temporal_formats_agree_between_read_and_write() {
    for (t, fmt) in [
        (OracleType::Date, FMT_DATE),
        (OracleType::Timestamp(6), FMT_TIMESTAMP),
        (OracleType::TimestampTZ(6), FMT_TIMESTAMP_TZ),
    ] {
        let (select, _) = projected_select(&[ColumnDesc { name: "C".into(), oracle_type: t }]);
        assert!(select.contains(&format!(", '{fmt}')")));
        assert!(typed_expr(":1", &t).ends_with(&format!(", '{fmt}')")));
    }
    assert_eq!(typed_expr(":1", &OracleType::Varchar2(10)), ":1");
}

#[test]
fn quoted_names_never_escape_their_quotes() {
    assert_eq!(quote_ident("a\"\"b"), "\"a\"\"\"\"b\"");
    assert_eq!(quote_ident("\""), "\"\"\"\"");
    assert_eq!(quote_ident("x\" OR 1=1 --"), "\"x\"\" OR 1=1 --\"");
    assert_ne!(quote_ident("id"), quote_ident("i d"));
    assert_eq!(quote_ident("id"), quote_ident("ID"));
}

#[test]
fn boolean_column_reads_booleans_with_short_rows() {
    let rows = vec![
        vec![Cell::Text("1".into())],
        vec![Cell::Text("TRUE".into())],
        vec![Cell::Text("0".into())],
        vec![Cell::Null],
        vec![],
    ];
    match build_column(&rows, 0, &field("F", DataType::Boolean)).unwrap() {
        ColumnValues::Boolean(v) => assert_eq!(v, vec![Some(true), Some(true), Some(false), None, None]),
        other => panic!("unexpected {other:?}"),
    }
}

#[test]
fn text_and_bytes_cross_unchanged() {
    let rows = vec![
        vec![Cell::Text("héllo".into())],
        vec![Cell::Null],
        vec![Cell::Bytes(vec![9, 8])],
    ];
    let texts = match build_column(&rows, 0, &field("t", DataType::Utf8)).unwrap() {
        ColumnValues::Utf8(v) => v,
        other => panic!("unexpected {other:?}"),
    };
    for (row, v) in rows.iter().zip(texts) {
        let value = match v {
            Some(s) => ArrowValue::Utf8(s),
            None => ArrowValue::Null(DataType::Utf8),
        };
        assert_eq!(text(cell_to_bind(value)), row[0].text().map(String::from));
    }
    let bytes = match build_column(&rows, 0, &field("b", DataType::Binary)).unwrap() {
        ColumnValues::Binary(v) => v,
        other => panic!("unexpected {other:?}"),
    };
    let expected = vec![Some("héllo".as_bytes().to_vec()), None, Some(vec![9, 8])];
    for (v, want) in bytes.into_iter().zip(expected) {
        let value = match v {
            Some(b) => ArrowValue::Binary(b),
            None => ArrowValue::Null(DataType::Binary),
        };
        match cell_to_bind(value).unwrap() {
            Bind::Bytes(got) => assert_eq!(got, want),
            other => panic!("unexpected {other:?}"),
        }
    }
}

#[test]
fn calendar_fields_format() {
    assert_eq!(loadsmith_oracle::calendar::date_fields_text((2024, 2, 29)), "2024-02-29 00:00:00");
    assert_eq!(loadsmith_oracle::calendar::date_fields_text((-44, 3, 15)), "-0044-03-15 00:00:00");
    assert_eq!(
        loadsmith_oracle::calendar::fields_text((999, 1, 2, 3, 4, 5, 6_789_123)),
        "0999-01-02 03:04:05.006789"
    );
}
