//! Which statements only read.
use cockatiel::sql::is_read_only_sql;

#[test]
fn read_only_queries_pass() {
    assert!(is_read_only_sql("SELECT * FROM timeline_events"));
    assert!(is_read_only_sql("  SELECT uuid7 FROM users"));
    assert!(is_read_only_sql("WITH x AS (SELECT 1) SELECT * FROM x"));
    assert!(is_read_only_sql("EXPLAIN SELECT * FROM timeline_events"));
    assert!(is_read_only_sql("select 1"));
    assert!(is_read_only_sql("With x AS (select 1) select * from x"));
}

#[test]
fn comment_prefixes_do_not_bypass_the_gate() {
    assert!(is_read_only_sql("-- note\nSELECT 1"));
    assert!(is_read_only_sql("/* block */ SELECT 1"));
    assert!(!is_read_only_sql("-- note\nDROP TABLE timeline_events"));
    assert!(!is_read_only_sql("/* block */ DELETE FROM timeline_events"));
}

#[test]
fn write_statements_are_rejected() {
    assert!(!is_read_only_sql("INSERT INTO timeline_events (x) VALUES (1)"));
    assert!(!is_read_only_sql("UPDATE timeline_events SET x = 1"));
    assert!(!is_read_only_sql("DELETE FROM timeline_events"));
    assert!(!is_read_only_sql("DROP TABLE timeline_events"));
    assert!(!is_read_only_sql("PRAGMA wal_checkpoint"));
    assert!(!is_read_only_sql("CREATE TABLE x (y INT)"));
    assert!(!is_read_only_sql("ALTER TABLE x ADD y INT"));
}

#[test]
fn injected_write_via_semicolon_is_rejected() {
    assert!(!is_read_only_sql("SELECT 1; DROP TABLE timeline_events"));
    assert!(!is_read_only_sql("SELECT 1; DELETE FROM timeline_events"));
    assert!(!is_read_only_sql("SELECT 1; UPDATE timeline_events SET x=1"));
}

#[test]
fn empty_or_garbage_does_not_pass() {
    assert!(!is_read_only_sql(""));
    assert!(!is_read_only_sql("   "));
    assert!(!is_read_only_sql("SHOW TABLES"));
    assert!(!is_read_only_sql("VACUUM"));
}

#[test]
fn tables_behind_with_may_be_named_like_verbs() {
    assert!(is_read_only_sql("WITH replace AS (SELECT 1) SELECT * FROM replace"));
    assert!(is_read_only_sql("WITH a AS (SELECT 1), Replace (x) As (SELECT 2) SELECT x FROM replace"));
    assert!(is_read_only_sql("WITH replace/* c */AS MATERIALIZED (SELECT 1) SELECT (1)"));
    assert!(is_read_only_sql("WITH RECURSIVE a(x) AS (SELECT 1) VALUES (1)"));
    assert!(!is_read_only_sql("WITH replace AS (SELECT 1) REPLACE INTO t VALUES (1)"));
    assert!(!is_read_only_sql("WITH select AS (SELECT 1) DELETE FROM t"));
    assert!(!is_read_only_sql("WITH a(x) AS (SELECT 1) UPDATE t SET x = 1"));
    assert!(!is_read_only_sql("WITH a AS (SELECT 1) INSERT INTO t SELECT * FROM a"));
}

#[test]
fn semicolons_in_texts_and_comments_end_no_statement() {
    assert!(is_read_only_sql("SELECT 'a; DROP TABLE x'"));
    assert!(is_read_only_sql("SELECT 1 -- ; DELETE FROM x"));
    assert!(is_read_only_sql("SELECT 1;"));
}
