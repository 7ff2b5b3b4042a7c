use ecto_libsql::classify::{detect_query_type, should_use_query, QueryType};

#[test]
fn classify_ignores_leading_whitespace() {
    for (sql, kind) in [
        ("SELECT 1", QueryType::Select),
        ("insert into t values (1)", QueryType::Insert),
        ("COMMIT", QueryType::Commit),
        ("PRAGMA x", QueryType::Other),
        ("", QueryType::Other),
    ] {
        for pad in ["", " ", "\t", "\n", "\r\n", "  \t\r\n "] {
            let padded = format!("{}{}", pad, sql);
            assert_eq!(detect_query_type(&padded), kind);
        }
    }
}

#[test]
fn classify_ignores_case() {
    assert_eq!(detect_query_type("rOlLbAcK"), QueryType::Rollback);
    assert_eq!(detect_query_type("Begin"), QueryType::Begin);
    assert_eq!(detect_query_type("dRoP TABLE t"), QueryType::Drop);
    assert_eq!(detect_query_type("alter table t"), QueryType::Alter);
    assert_eq!(detect_query_type("CrEaTe table t"), QueryType::Create);
    assert_eq!(detect_query_type("delete from t"), QueryType::Delete);
    assert_eq!(detect_query_type("uPdAtE t"), QueryType::Update);
}

#[test]
fn classify_needs_a_whole_word() {
    assert_eq!(detect_query_type("SELECTED FROM t"), QueryType::Other);
    assert_eq!(detect_query_type("SELECT* FROM t"), QueryType::Other);
    assert_eq!(detect_query_type("   "), QueryType::Other);
    assert_eq!(detect_query_type("COMMIT;"), QueryType::Other);
}

#[test]
fn routing_examples() {
    assert!(should_use_query("SELECT * FROM t"));
    assert!(should_use_query("  select id from t"));
    assert!(should_use_query("SELECT\n"));
    assert!(!should_use_query("SELECTED FROM t"));
    assert!(should_use_query("INSERT INTO t VALUES (1) RETURNING id"));
    assert!(!should_use_query("INSERT INTO t VALUES (1)"));
    assert!(!should_use_query("INSERT INTO t VALUES (1) NORETURNING id"));
    assert!(!should_use_query(""));
    assert!(!should_use_query("   "));
    assert!(!should_use_query("S"));
    assert!(!should_use_query("-- c\nSELECT * FROM t"));
}

#[test]
fn routing_word_boundaries() {
    assert!(should_use_query("SELECT(1)"));
    assert!(!should_use_query("SELECT_x FROM t"));
    assert!(!should_use_query("UPDATE t SET a = 1 RETURNING_x"));
    assert!(!should_use_query("UPDATE t SET a = 1 RETURNING9"));
    assert!(should_use_query("UPDATE t SET a = 1 RETURNING\"id\""));
    assert!(should_use_query("RETURNING"));
    assert!(should_use_query("x,RETURNING,y"));
}
