//! Connection-string parsing, call-syntax rewriting, the probe heuristic,
//! and placeholder substitution.

use whiskers::connection::{parse_connection_string, TdsConnection};
use whiskers::errors::ErrorKind;
use whiskers::params::{substitute_params, ParamValue};
use whiskers::rewrite::{convert_call_syntax, needs_rowcount_probe};

#[test]
fn missing_server_fails_with_connection_error() {
    let r = TdsConnection::new(b"database=mydb;uid=sa;pwd=x");
    match r {
        Err(e) => {
            assert_eq!(e.kind, ErrorKind::ConnectionError);
            assert_eq!(e.driver_msg, b"Neither DSN nor SERVER keyword supplied".to_vec());
        },
        Ok(_) => panic!("a connection string without a server must be rejected"),
    }
}

#[test]
fn connect_parses_server_and_defaults() {
    let (conn, config) = TdsConnection::new(b"Server=db.example.com,1455;UID=sa;PWD=secret")
        .unwrap();
    assert!(conn.open);
    assert!(!conn.tx_state.autocommit);
    assert!(!conn.tx_state.in_transaction);
    assert_eq!(config.host, b"db.example.com".to_vec());
    assert_eq!(config.port, 1455);
    assert_eq!(config.database, b"master".to_vec());
    assert_eq!(config.uid, b"sa".to_vec());
    assert_eq!(config.pwd, b"secret".to_vec());
    assert!(!config.trust_cert);
}

#[test]
fn parse_defaults_and_truthy_trust() {
    let (config, has_server) = parse_connection_string(
        b" server = myhost ; Initial Catalog = sales ; TrustServerCertificate = YES ",
    );
    assert!(has_server);
    assert_eq!(config.host, b"myhost".to_vec());
    assert_eq!(config.port, 1433);
    assert_eq!(config.database, b"sales".to_vec());
    assert!(config.trust_cert);

    let (config2, has2) = parse_connection_string(b"trustservercertificate=no;uid=u");
    assert!(!has2);
    assert!(!config2.trust_cert);
    assert_eq!(config2.host, b"localhost".to_vec());

    let (config3, _) = parse_connection_string(b"server=h,notaport");
    assert_eq!(config3.host, b"h".to_vec());
    assert_eq!(config3.port, 1433);

    let (config4, _) = parse_connection_string(b"trustservercertificate=1");
    assert!(config4.trust_cert);
}

#[test]
fn call_syntax_rewrites_to_exec() {
    assert_eq!(convert_call_syntax(b"{CALL myproc(1, 2)}"), b"EXEC myproc 1, 2".to_vec());
    assert_eq!(convert_call_syntax(b"  { call sp_who }  "), b"EXEC sp_who".to_vec());
    assert_eq!(convert_call_syntax(b"SELECT 1"), b"SELECT 1".to_vec());
    assert_eq!(convert_call_syntax(b"{not a call}"), b"{not a call}".to_vec());
}

#[test]
fn probe_heuristic_covers_dml_and_ddl() {
    assert!(needs_rowcount_probe(b"UPDATE t SET x=1"));
    assert!(needs_rowcount_probe(b"  insert into t values (1)"));
    assert!(needs_rowcount_probe(b"DELETE FROM t"));
    assert!(needs_rowcount_probe(b"MERGE t USING s ON 1=1 WHEN MATCHED THEN UPDATE SET x=1;"));
    assert!(!needs_rowcount_probe(b"SELECT * FROM t"));
    assert!(!needs_rowcount_probe(b"CREATE OR ALTER PROCEDURE p AS SELECT 1"));
    assert!(!needs_rowcount_probe(b"CREATE PROCEDURE p AS SELECT 1"));
    assert!(!needs_rowcount_probe(b"ALTER VIEW v AS SELECT 1"));
}

#[test]
fn substitution_skips_quoted_placeholders() {
    let params = vec![ParamValue::Int(42)];
    let r = substitute_params(b"SELECT '?', ?", &params);
    assert_eq!(r, b"SELECT '?', 42".to_vec());
}

#[test]
fn substitution_honors_doubled_quotes() {
    let params = vec![ParamValue::Str(b"x".to_vec())];
    let r = substitute_params(b"SELECT 'it''s ?', ?", &params);
    assert_eq!(r, b"SELECT 'it''s ?', N'x'".to_vec());
}

#[test]
fn substitution_leaves_surplus_placeholders() {
    let params = vec![ParamValue::Null];
    let r = substitute_params(b"SELECT ?, ?", &params);
    assert_eq!(r, b"SELECT NULL, ?".to_vec());
}
