//! The error translator, the information table, the row writers, column
//! metadata, the scalar-probe extraction, and the blocking facade.

use whiskers::column::{
    column_to_info, column_type_to_sql_type, ColumnDesc, DataTypeDesc, FixedLenKind, VarLenKind,
};
use whiskers::connection::{first_string_cell, TdsConnection};
use whiskers::cursor::ResultSet;
use whiskers::errors::{translate_failure, ErrorKind, ProtocolFailure};
use whiskers::info::{get_info, InfoResponse};
use whiskers::runtime::block_on;
use whiskers::value::CompactValue;
use whiskers::writer::{MultiSetWriter, PyRowWriter};

#[test]
fn server_codes_map_to_exception_classes() {
    let e = translate_failure(ProtocolFailure::Server {
        code: 2627,
        class: 14,
        message: b"dup key".to_vec(),
    });
    assert_eq!(e.kind, ErrorKind::IntegrityError);
    assert_eq!(e.driver_msg, b"Integrity constraint violation".to_vec());
    assert_eq!(e.ddbc_msg, b"[CopyCat][whiskers_native][SQL Server]dup key".to_vec());

    let e2 = translate_failure(ProtocolFailure::Server {
        code: 102,
        class: 15,
        message: b"bad syntax".to_vec(),
    });
    assert_eq!(e2.kind, ErrorKind::ProgrammingError);
    assert_eq!(e2.driver_msg, b"Syntax error or access violation".to_vec());

    let e3 = translate_failure(ProtocolFailure::Server {
        code: 8152,
        class: 16,
        message: b"truncated".to_vec(),
    });
    assert_eq!(e3.kind, ErrorKind::DataError);
    assert_eq!(e3.driver_msg, b"String or binary data would be truncated".to_vec());
}

#[test]
fn unknown_codes_fall_back_to_severity() {
    let internal = translate_failure(ProtocolFailure::Server {
        code: 999999,
        class: 20,
        message: b"boom".to_vec(),
    });
    assert_eq!(internal.kind, ErrorKind::InternalError);
    assert_eq!(internal.driver_msg, b"boom".to_vec());

    let operational = translate_failure(ProtocolFailure::Server {
        code: 999999,
        class: 17,
        message: b"busy".to_vec(),
    });
    assert_eq!(operational.kind, ErrorKind::OperationalError);

    let database = translate_failure(ProtocolFailure::Server {
        code: 999999,
        class: 16,
        message: b"plain".to_vec(),
    });
    assert_eq!(database.kind, ErrorKind::DatabaseError);
}

#[test]
fn transport_and_other_failures() {
    let io = translate_failure(ProtocolFailure::Io { message: b"broken pipe".to_vec() });
    assert_eq!(io.kind, ErrorKind::ConnectionError);
    assert_eq!(io.driver_msg, b"broken pipe".to_vec());

    let other = translate_failure(ProtocolFailure::Other { message: b"odd".to_vec() });
    assert_eq!(other.kind, ErrorKind::RuntimeError);
    assert_eq!(other.kind.name(), b"RuntimeError".to_vec());
}

#[test]
fn info_table_constants_and_probes() {
    match get_info(6) {
        InfoResponse::Text(t) => assert_eq!(t, b"whiskers_native".to_vec()),
        _ => panic!("driver name is fixed text"),
    }
    match get_info(13) {
        InfoResponse::Probe(q) => assert_eq!(q, b"SELECT @@SERVERNAME".to_vec()),
        _ => panic!("server name is a probe"),
    }
    match get_info(104) {
        InfoResponse::Number(n) => assert_eq!(n, 8060),
        _ => panic!("row size is a number"),
    }
    match get_info(54321) {
        InfoResponse::Text(t) => assert!(t.is_empty()),
        _ => panic!("unknown types answer empty text"),
    }
}

#[test]
fn column_type_codes() {
    assert_eq!(column_type_to_sql_type(b"Int4"), 4);
    assert_eq!(column_type_to_sql_type(b"NVarchar"), -9);
    assert_eq!(column_type_to_sql_type(b"DatetimeOffsetn"), -155);
    assert_eq!(column_type_to_sql_type(b"Guid"), -11);
    assert_eq!(column_type_to_sql_type(b"something else"), 12);
}

#[test]
fn column_metadata_sizes() {
    let c = ColumnDesc {
        name: b"name".to_vec(),
        wire_name: b"NVarchar".to_vec(),
        type_info: Some(DataTypeDesc::VarLenSized(VarLenKind::NVarchar, 100)),
        nullable: Some(false),
    };
    let info = column_to_info(&c);
    assert_eq!(info.name, b"name".to_vec());
    assert_eq!(info.sql_type, -9);
    assert_eq!(info.column_size, 50);
    assert_eq!(info.decimal_digits, 0);
    assert_eq!(info.nullable, 0);

    let lob = ColumnDesc {
        name: b"body".to_vec(),
        wire_name: b"NVarchar".to_vec(),
        type_info: Some(DataTypeDesc::VarLenSized(VarLenKind::NVarchar, 0xffff)),
        nullable: None,
    };
    let lob_info = column_to_info(&lob);
    assert_eq!(lob_info.column_size, 0);
    assert_eq!(lob_info.nullable, 1);

    let dec = ColumnDesc {
        name: b"amount".to_vec(),
        wire_name: b"Decimaln".to_vec(),
        type_info: Some(DataTypeDesc::VarLenSizedPrecision { precision: 18, scale: 4 }),
        nullable: Some(true),
    };
    let dec_info = column_to_info(&dec);
    assert_eq!(dec_info.sql_type, 3);
    assert_eq!(dec_info.column_size, 18);
    assert_eq!(dec_info.decimal_digits, 4);

    let fixed = ColumnDesc {
        name: b"id".to_vec(),
        wire_name: b"Int8".to_vec(),
        type_info: Some(DataTypeDesc::FixedLen(FixedLenKind::Int8)),
        nullable: Some(false),
    };
    assert_eq!(column_to_info(&fixed).column_size, 19);
}

#[test]
fn row_writer_buffers_cells() {
    let mut w = PyRowWriter::new(2);
    w.write_i32(0, 7);
    w.write_str(1, b"hi".to_vec());
    w.write_null(0);
    w.write_bool(1, true);
    assert_eq!(w.row_count(), 2);
    assert_eq!(*w.get(0, 1), CompactValue::Str(b"hi".to_vec()));
    assert_eq!(*w.get(1, 0), CompactValue::Null);
    assert_eq!(*w.get(1, 1), CompactValue::Bool(true));
}

#[test]
fn multi_set_writer_collects_sets_and_messages() {
    let mut m = MultiSetWriter::new();
    m.on_metadata(vec![whiskers::column::ColumnInfo {
        name: b"a".to_vec(),
        sql_type: 4,
        column_size: 10,
        decimal_digits: 0,
        nullable: 1,
    }]);
    m.write_i64(0, 5);
    m.on_row_done();
    m.on_info(50000, b"printed".to_vec());
    m.on_metadata(vec![whiskers::column::ColumnInfo {
        name: b"b".to_vec(),
        sql_type: 4,
        column_size: 10,
        decimal_digits: 0,
        nullable: 1,
    }]);
    m.write_i64(0, 6);
    assert_eq!(m.messages.len(), 1);
    assert_eq!(m.messages[0].0, b"[01000] (50000)".to_vec());
    assert_eq!(m.messages[0].1, b"printed".to_vec());
    let sets = m.finalize();
    assert_eq!(sets.len(), 2);
    assert_eq!(sets[0].0[0].name, b"a".to_vec());
    assert_eq!(*sets[0].1.get(0, 0), CompactValue::I64(5));
    assert_eq!(sets[1].0[0].name, b"b".to_vec());
}

#[test]
fn utf16_cells_decode() {
    let mut w = PyRowWriter::new(1);
    let text = "h\u{e9}llo";
    let units: Vec<u16> = text.encode_utf16().collect();
    w.write_utf16(0, &units);
    match w.get(0, 0) {
        CompactValue::Str(s) => assert_eq!(s, &text.as_bytes().to_vec()),
        _ => panic!("utf16 decodes to text"),
    }
}

#[test]
fn first_string_cell_reads_only_the_first_set() {
    // Nulls are skipped within the first result set.
    let mut w1 = PyRowWriter::new(1);
    w1.write_null(0);
    w1.write_str(0, b"master".to_vec());
    let sets = vec![ResultSet { columns: Vec::new(), writer: w1 }];
    assert_eq!(first_string_cell(&sets), Some(b"master".to_vec()));

    // A string in a later set is never consulted.
    let mut empty_first = PyRowWriter::new(1);
    empty_first.write_null(0);
    let mut second = PyRowWriter::new(1);
    second.write_str(0, b"elsewhere".to_vec());
    let two = vec![
        ResultSet { columns: Vec::new(), writer: empty_first },
        ResultSet { columns: Vec::new(), writer: second },
    ];
    assert_eq!(first_string_cell(&two), None);

    let mut w3 = PyRowWriter::new(1);
    w3.write_i64(0, 3);
    let nonstring = vec![ResultSet { columns: Vec::new(), writer: w3 }];
    assert_eq!(first_string_cell(&nonstring), None);
    assert_eq!(first_string_cell(&Vec::new()), None);
}

#[test]
fn connection_lifecycle_and_closed_errors() {
    let (mut conn, _config) = TdsConnection::new(b"server=h").unwrap();
    let cursor = conn.alloc_cursor();
    assert!(cursor.is_ok());
    assert!(!conn.get_autocommit());

    // Open a transaction, then close: commit cannot reach the wire.
    let mut c2 = conn.tx_state.begin_transaction_if_needed();
    assert!(c2.take().is_some());
    conn.close();
    let commit = conn.commit();
    match commit {
        Err(e) => {
            assert_eq!(e.kind, ErrorKind::RuntimeError);
            assert_eq!(e.driver_msg, b"Connection is closed".to_vec());
        },
        Ok(_) => panic!("commit over a closed connection must fail"),
    }
    assert!(conn.alloc_cursor().is_err());
    // Rollback is best-effort and swallows the closed handle.
    let _ = conn.tx_state.begin_transaction_if_needed();
    assert_eq!(conn.rollback(), None);
}

#[test]
fn block_on_returns_the_completed_value() {
    let v = block_on(|| 40 + 2);
    assert_eq!(v, 42);
}
