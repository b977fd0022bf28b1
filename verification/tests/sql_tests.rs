use base64::Engine;
use fern_core::json::JVal;
use fern_core::sqlhost::{
    build_database_stats, build_query_explanation, column_info_from_pragma_row, execute_result,
    filter_user_tables, index_column_from_pragma_row, index_from_pragma_row, marshal_row,
    query_result, wants_query_plan, ColumnInfo, SqliteState,
};
use fern_core::sqlsession::{make_transaction_id, DbError, SqlSession};
use fern_core::sqlstats::{query_kind_of, QueryKind, QueryStats};
use fern_core::sqlvalue::{SqlBinding, SqlRow, SqlTypeHint, SqlValue, TypedSqlParam};

fn column(name: &str) -> ColumnInfo {
    ColumnInfo {
        name: name.to_string(),
        column_type: "TEXT".to_string(),
        nullable: true,
        primary_key: false,
        auto_increment: false,
        default_value: None,
    }
}

#[test]
fn binding_follows_type_hints() {
    // boolean -> integer 0/1
    let p = TypedSqlParam { value: JVal::Bool(true), type_hint: Some(SqlTypeHint::Boolean) };
    assert_eq!(p.to_sql(), SqlBinding::Value(SqlValue::Integer(1)));
    // failed coercion binds NULL, not an error
    let p = TypedSqlParam { value: JVal::Str("no".to_string()), type_hint: Some(SqlTypeHint::Integer) };
    assert_eq!(p.to_sql(), SqlBinding::Value(SqlValue::Null));
    // real hint on an integer asks the adapter for the double encoding
    let p = TypedSqlParam { value: JVal::Int(5), type_hint: Some(SqlTypeHint::Real) };
    assert_eq!(p.to_sql(), SqlBinding::RealFromInt(5));
    // blob hint stores the given text verbatim
    let p = TypedSqlParam { value: JVal::Str("abc".to_string()), type_hint: Some(SqlTypeHint::Blob) };
    assert_eq!(p.to_sql(), SqlBinding::Value(SqlValue::Text("abc".to_string())));
    // datetime behaves as text
    let p = TypedSqlParam {
        value: JVal::Str("2020-01-01".to_string()),
        type_hint: Some(SqlTypeHint::Datetime),
    };
    assert_eq!(p.to_sql(), SqlBinding::Value(SqlValue::Text("2020-01-01".to_string())));
    // null hint always binds NULL
    let p = TypedSqlParam { value: JVal::Int(7), type_hint: Some(SqlTypeHint::Null) };
    assert_eq!(p.to_sql(), SqlBinding::Value(SqlValue::Null));
}

#[test]
fn binding_without_hint_maps_by_json_type() {
    let p = TypedSqlParam { value: JVal::Null, type_hint: None };
    assert_eq!(p.to_sql(), SqlBinding::Value(SqlValue::Null));
    let p = TypedSqlParam { value: JVal::Bool(false), type_hint: None };
    assert_eq!(p.to_sql(), SqlBinding::Value(SqlValue::Integer(0)));
    let p = TypedSqlParam { value: JVal::Int(-3), type_hint: None };
    assert_eq!(p.to_sql(), SqlBinding::Value(SqlValue::Integer(-3)));
    let bits = 1.5f64.to_bits();
    let p = TypedSqlParam { value: JVal::Real(bits), type_hint: None };
    assert_eq!(p.to_sql(), SqlBinding::Value(SqlValue::Real(bits)));
    let p = TypedSqlParam { value: JVal::Str("x".to_string()), type_hint: None };
    assert_eq!(p.to_sql(), SqlBinding::Value(SqlValue::Text("x".to_string())));
    // compound values become their canonical JSON text, rendered by the adapter
    let p = TypedSqlParam { value: JVal::Arr(vec![JVal::Int(1)]), type_hint: None };
    assert_eq!(p.to_sql(), SqlBinding::JsonText);
}

#[test]
fn binding_unwraps_nested_value_member() {
    let nested = JVal::Obj(vec![("value".to_string(), JVal::Int(9))]);
    let p = TypedSqlParam { value: nested, type_hint: Some(SqlTypeHint::Integer) };
    assert_eq!(p.to_sql(), SqlBinding::Value(SqlValue::Integer(9)));
    assert_eq!(p.actual_value(), &JVal::Int(9));
}

#[test]
fn marshalling_maps_engine_values_to_json() {
    let columns = vec![column("a"), column("b"), column("c"), column("d"), column("e")];
    let nan_bits = f64::NAN.to_bits();
    let pi_bits = 3.25f64.to_bits();
    let row = SqlRow {
        values: vec![
            SqlValue::Null,
            SqlValue::Integer(42),
            SqlValue::Real(nan_bits),
            SqlValue::Real(pi_bits),
            SqlValue::Blob(vec![1, 2, 3]),
        ],
    };
    let obj = marshal_row(&columns, row);
    match obj {
        JVal::Obj(fields) => {
            assert_eq!(fields[0], ("a".to_string(), JVal::Null));
            assert_eq!(fields[1], ("b".to_string(), JVal::Int(42)));
            // NaN becomes null; a finite double keeps its bits
            assert_eq!(fields[2], ("c".to_string(), JVal::Null));
            assert_eq!(fields[3], ("d".to_string(), JVal::Real(pi_bits)));
            // a blob becomes its base64 string
            let expected = base64::engine::general_purpose::STANDARD.encode([1u8, 2, 3]);
            assert_eq!(fields[4], ("e".to_string(), JVal::Str(expected)));
        },
        other => panic!("expected an object, got {:?}", other),
    }
}

#[test]
fn query_kind_classification() {
    assert_eq!(query_kind_of("SELECT * FROM t"), QueryKind::Select);
    assert_eq!(query_kind_of("  select 1"), QueryKind::Select);
    assert_eq!(query_kind_of("\tInSeRt INTO t VALUES (1)"), QueryKind::Insert);
    assert_eq!(query_kind_of("update t set a = 1"), QueryKind::Update);
    assert_eq!(query_kind_of("DELETE FROM t"), QueryKind::Delete);
    assert_eq!(query_kind_of("create table t (a)"), QueryKind::Create);
    assert_eq!(query_kind_of("DROP TABLE t"), QueryKind::Drop);
    assert_eq!(query_kind_of("alter table t add b"), QueryKind::Alter);
    assert_eq!(query_kind_of("PRAGMA page_count"), QueryKind::Other);
    assert_eq!(query_kind_of(""), QueryKind::Other);
}

#[test]
fn stats_accounting() {
    let mut stats = QueryStats::new();
    stats.record_query(QueryKind::Select, 10);
    stats.record_query(QueryKind::Select, 20);
    stats.record_query(QueryKind::Insert, 5);
    assert_eq!(stats.total_queries, 3);
    assert_eq!(stats.total_execution_time_ms, 35);
    assert_eq!(stats.query_count_by_type.select_queries, 2);
    assert_eq!(stats.query_count_by_type.insert_queries, 1);
    assert_eq!(stats.query_count_by_type.delete_queries, 0);
    assert_eq!(stats.average_execution_time_ms(), 11);

    let report = build_database_stats(&stats, 4, 4096, "3.45.0".to_string());
    assert_eq!(report.total_queries, 3);
    assert_eq!(report.average_execution_time_ms, 11);
    assert_eq!(report.database_size_bytes, 16384);
    assert_eq!(report.sqlite_version, "3.45.0");
}

#[test]
fn execute_result_reports_rowid_only_for_inserts() {
    let r = execute_result("INSERT INTO t VALUES (1)", 1, 77, 3, "v".to_string());
    assert_eq!(r.metadata.last_insert_rowid, Some(77));
    assert_eq!(r.metadata.rows_affected, 1);
    assert_eq!(r.metadata.rows_returned, 0);
    assert!(r.data.is_empty());

    let r = execute_result("UPDATE t SET a = 1", 2, 77, 3, "v".to_string());
    assert_eq!(r.metadata.last_insert_rowid, None);
}

#[test]
fn query_result_marshals_rows_in_order() {
    assert!(wants_query_plan("select 1"));
    assert!(!wants_query_plan("insert into t values (1)"));
    let columns = vec![column("n")];
    let rows = vec![
        SqlRow { values: vec![SqlValue::Integer(1)] },
        SqlRow { values: vec![SqlValue::Integer(2)] },
    ];
    let r = query_result(columns, rows, 8, Some("SCAN t".to_string()), "v".to_string());
    assert_eq!(r.metadata.rows_returned, 2);
    assert_eq!(r.metadata.rows_affected, 0);
    assert_eq!(r.metadata.query_plan, Some("SCAN t".to_string()));
    assert_eq!(r.data.len(), 2);
    assert_eq!(r.data[0], JVal::Obj(vec![("n".to_string(), JVal::Int(1))]));
    assert_eq!(r.data[1], JVal::Obj(vec![("n".to_string(), JVal::Int(2))]));
    let e = build_query_explanation("SCAN t".to_string(), "v".to_string());
    assert_eq!(e.estimated_cost, 0);
    assert_eq!(e.estimated_rows, 0);
}

#[test]
fn list_tables_excludes_engine_tables() {
    let names = vec![
        "users".to_string(),
        "sqlite_sequence".to_string(),
        "SQLITE_master".to_string(),
        "orders".to_string(),
    ];
    let visible = filter_user_tables(names);
    assert_eq!(visible, vec!["users".to_string(), "orders".to_string()]);
}

#[test]
fn pragma_row_parsing() {
    let row = SqlRow {
        values: vec![
            SqlValue::Integer(0),
            SqlValue::Text("id".to_string()),
            SqlValue::Text("INTEGER".to_string()),
            SqlValue::Integer(1),
            SqlValue::Null,
            SqlValue::Integer(1),
        ],
    };
    let c = column_info_from_pragma_row(row).expect("column row should parse");
    assert_eq!(c.name, "id");
    assert_eq!(c.column_type, "INTEGER");
    assert!(!c.nullable);
    assert!(c.primary_key);
    assert!(!c.auto_increment);
    assert_eq!(c.default_value, None);

    let bad = SqlRow { values: vec![SqlValue::Integer(0)] };
    assert!(column_info_from_pragma_row(bad).is_err());

    let idx = SqlRow {
        values: vec![
            SqlValue::Integer(0),
            SqlValue::Text("idx_users_name".to_string()),
            SqlValue::Integer(1),
            SqlValue::Text("c".to_string()),
            SqlValue::Integer(0),
        ],
    };
    assert_eq!(index_from_pragma_row(idx).expect("index row should parse"), (
        "idx_users_name".to_string(),
        true,
    ));

    let col = SqlRow {
        values: vec![SqlValue::Integer(0), SqlValue::Integer(1), SqlValue::Text("name".to_string())],
    };
    assert_eq!(index_column_from_pragma_row(col).expect("index column should parse"), "name");
}

#[test]
fn transaction_rollback_discards_statements() {
    let mut session = SqlSession::new();
    session.apply("CREATE TABLE t (a)".to_string());
    let begun = session.begin_transaction(123).expect("begin should succeed");
    assert!(begun.success);
    assert_eq!(begun.transaction_id, "tx_123");
    session.apply("INSERT INTO t VALUES (1)".to_string());
    let rolled = session
        .rollback_transaction(begun.transaction_id.clone())
        .expect("rollback should succeed");
    assert!(rolled.success);
    // The insert left no trace: only the create remains applied.
    let committed = session.begin_transaction(124).expect("begin should succeed");
    assert_eq!(committed.transaction_id, "tx_124");
    session.apply("INSERT INTO t VALUES (2)".to_string());
    let done = session.commit_transaction(committed.transaction_id).expect("commit should succeed");
    assert!(done.success);
}

#[test]
fn transaction_errors_without_open_transaction() {
    let mut session = SqlSession::new();
    assert!(matches!(
        session.commit_transaction("tx_1".to_string()),
        Err(DbError::SqlExecutionFailure(_))
    ));
    assert!(matches!(
        session.rollback_transaction("tx_1".to_string()),
        Err(DbError::SqlExecutionFailure(_))
    ));
    session.begin_transaction(7).expect("begin should succeed");
    assert!(matches!(session.begin_transaction(8), Err(DbError::SqlExecutionFailure(_))));
    assert_eq!(make_transaction_id(0), "tx_0");
    assert_eq!(make_transaction_id(987654321), "tx_987654321");
}

#[test]
fn host_state_tracks_connection_statistics() {
    let mut state = SqliteState::new();
    let db = state.open_db("main".to_string());
    state
        .record_statement(db, "INSERT INTO t VALUES (1)".to_string(), 4)
        .expect("record should succeed");
    state
        .record_statement(db, "SELECT * FROM t".to_string(), 6)
        .expect("record should succeed");
    let stats = state
        .database_stats(db, 2, 512, "3.45.0".to_string())
        .expect("stats should be available");
    assert_eq!(stats.total_queries, 2);
    assert_eq!(stats.total_execution_time_ms, 10);
    assert_eq!(stats.query_count_by_type.insert_queries, 1);
    assert_eq!(stats.query_count_by_type.select_queries, 1);
    assert_eq!(stats.database_size_bytes, 1024);
}

#[test]
fn host_state_transactions_roundtrip() {
    let mut state = SqliteState::new();
    let db = state.open_db("main".to_string());
    let begun = state.begin_transaction(db, 55).expect("begin should succeed");
    assert_eq!(begun.transaction_id, "tx_55");
    state
        .record_statement(db, "INSERT INTO t VALUES (1)".to_string(), 1)
        .expect("record should succeed");
    let rolled = state
        .rollback_transaction(db, begun.transaction_id)
        .expect("rollback should succeed");
    assert!(rolled.success);

    // a cursor handle is no transaction target, and a dropped connection
    // is stale for good
    let cursor = state.query(db, vec![]).expect("query should succeed");
    assert!(state.begin_transaction(cursor, 1).is_err());
    state.drop_resource(db).expect("drop should succeed");
    assert!(state.begin_transaction(db, 2).is_err());
    assert!(state.record_statement(db, "SELECT 1".to_string(), 1).is_err());
}
