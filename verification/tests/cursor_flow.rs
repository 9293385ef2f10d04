//! The execution pipeline end to end over canned decoded result sets: the
//! batch built, the rowcount extraction, the pending-set queue, fetching
//! and scrolling, and the transaction decisions around it.

use whiskers::column::ColumnInfo;
use whiskers::cursor::{accumulate_rowcount, ResultSet, TdsCursor};
use whiskers::statement::{
    ddbc_sql_fetch_all, ddbc_sql_fetch_many, ddbc_sql_fetch_one, ddbc_sql_fetch_scroll,
    ddbc_sql_get_all_diag_records, ddbc_sql_more_results, ddbc_sql_row_count,
    ddbc_sql_set_stmt_attr, StatementHandle,
};
use whiskers::txn::TransactionState;
use whiskers::value::CompactValue;
use whiskers::writer::PyRowWriter;

fn col(name: &[u8]) -> ColumnInfo {
    ColumnInfo { name: name.to_vec(), sql_type: 4, column_size: 10, decimal_digits: 0, nullable: 1 }
}

fn int_set(name: &[u8], values: &[i64]) -> ResultSet {
    let mut w = PyRowWriter::new(1);
    for v in values {
        w.write_i64(0, *v);
    }
    ResultSet { columns: vec![col(name)], writer: w }
}

#[test]
fn update_returns_server_rowcount_and_hides_probe_set() {
    let mut tx = TransactionState { autocommit: true, in_transaction: false };
    let mut cursor = TdsCursor::new();
    let batch = cursor.begin_execute(b"UPDATE t SET x=1", &Vec::new(), &mut tx);
    assert_eq!(batch, b"UPDATE t SET x=1\nSELECT @@ROWCOUNT AS __rowcount__".to_vec());
    assert!(cursor.probe_pending);

    cursor.process_results(vec![int_set(b"__rowcount__", &[7])]);
    assert_eq!(cursor.rowcount(), 7);
    // The synthetic set is visible neither to describe nor to fetch.
    assert!(cursor.description().is_none());
    assert!(cursor.fetchone().is_none());
    assert!(!cursor.nextset());
}

#[test]
fn create_or_alter_gets_no_probe_and_no_residue() {
    let mut tx = TransactionState { autocommit: true, in_transaction: false };
    let mut cursor = TdsCursor::new();
    let batch = cursor.begin_execute(
        b"CREATE OR ALTER PROCEDURE p AS SELECT 1",
        &Vec::new(),
        &mut tx,
    );
    assert_eq!(batch, b"CREATE OR ALTER PROCEDURE p AS SELECT 1".to_vec());
    assert!(!cursor.probe_pending);

    cursor.process_results(Vec::new());
    assert_eq!(cursor.rowcount(), 0);
    assert!(cursor.description().is_none());
    assert!(cursor.fetchone().is_none());
    assert!(!cursor.nextset());
}

#[test]
fn three_result_sets_queue_in_order() {
    let mut tx = TransactionState { autocommit: true, in_transaction: false };
    let mut cursor = TdsCursor::new();
    let _ = cursor.begin_execute(b"SELECT 1 SELECT 2 SELECT 3", &Vec::new(), &mut tx);
    cursor.process_results(vec![
        int_set(b"a", &[1]),
        int_set(b"b", &[2]),
        int_set(b"c", &[3]),
    ]);
    assert_eq!(cursor.rowcount(), -1);
    assert_eq!(cursor.description().unwrap()[0].name, b"a".to_vec());
    assert_eq!(cursor.fetchone().unwrap(), vec![CompactValue::I64(1)]);

    let mut stmt = StatementHandle { cursor };
    assert_eq!(ddbc_sql_more_results(&mut stmt), 0);
    assert_eq!(stmt.cursor.description().unwrap()[0].name, b"b".to_vec());
    assert_eq!(ddbc_sql_more_results(&mut stmt), 0);
    assert_eq!(stmt.cursor.description().unwrap()[0].name, b"c".to_vec());
    assert_eq!(ddbc_sql_more_results(&mut stmt), 100);
    assert_eq!(ddbc_sql_more_results(&mut stmt), 100);
}

#[test]
fn probe_set_before_real_sets_promotes_the_next() {
    let mut tx = TransactionState { autocommit: true, in_transaction: false };
    let mut cursor = TdsCursor::new();
    let _ = cursor.begin_execute(b"INSERT INTO t OUTPUT 1 VALUES (1)", &Vec::new(), &mut tx);
    assert!(cursor.probe_pending);
    cursor.process_results(vec![int_set(b"__rowcount__", &[3]), int_set(b"data", &[9])]);
    // A real set follows the probe: it becomes current and the rowcount is unknown.
    assert_eq!(cursor.rowcount(), -1);
    assert_eq!(cursor.description().unwrap()[0].name, b"data".to_vec());
    assert_eq!(cursor.fetchone().unwrap(), vec![CompactValue::I64(9)]);
}

#[test]
fn implicit_transaction_opens_once() {
    let mut tx = TransactionState::new();
    assert!(!tx.autocommit);
    let mut cursor = TdsCursor::new();
    let batch = cursor.begin_execute(b"SELECT 1", &Vec::new(), &mut tx);
    assert_eq!(batch, b"BEGIN TRANSACTION\nSELECT 1".to_vec());
    assert!(tx.in_transaction);
    // The second execute on the same connection adds no second BEGIN.
    let batch2 = cursor.begin_execute(b"SELECT 2", &Vec::new(), &mut tx);
    assert_eq!(batch2, b"SELECT 2".to_vec());
}

#[test]
fn commit_only_with_open_transaction() {
    let mut tx = TransactionState::new();
    assert_eq!(tx.commit_action(), None);
    let _ = tx.begin_transaction_if_needed();
    assert!(tx.in_transaction);
    assert_eq!(tx.commit_action(), Some(b"IF @@TRANCOUNT > 0 COMMIT TRANSACTION".to_vec()));
    assert!(!tx.in_transaction);
    assert_eq!(tx.commit_action(), None);
}

#[test]
fn rollback_is_guarded_and_clears() {
    let mut tx = TransactionState::new();
    let _ = tx.begin_transaction_if_needed();
    assert_eq!(tx.rollback_action(), Some(b"IF @@TRANCOUNT > 0 ROLLBACK TRANSACTION".to_vec()));
    assert!(!tx.in_transaction);
    assert_eq!(tx.rollback_action(), None);
}

#[test]
fn autocommit_on_commits_open_transaction_first() {
    let mut tx = TransactionState::new();
    let _ = tx.begin_transaction_if_needed();
    assert!(tx.in_transaction);
    let action = tx.set_autocommit(true);
    assert_eq!(action, Some(b"IF @@TRANCOUNT > 0 COMMIT TRANSACTION".to_vec()));
    assert!(tx.autocommit);
    assert!(!tx.in_transaction);
    // Turning it back off only arms the next execute.
    assert_eq!(tx.set_autocommit(false), None);
    assert!(!tx.autocommit);
    assert!(!tx.in_transaction);
}

#[test]
fn scroll_stays_inside_the_buffer() {
    let mut cursor = TdsCursor::new();
    cursor.process_results(vec![int_set(b"n", &[10, 20])]);
    let mut stmt = StatementHandle { cursor };

    // Absolute beyond the buffered row count: no data, no movement.
    assert_eq!(ddbc_sql_fetch_scroll(&mut stmt, 5, 5), 100);
    assert_eq!(stmt.cursor.current_row_index(), 0);
    // Relative -1 from position 0: no data.
    assert_eq!(ddbc_sql_fetch_scroll(&mut stmt, 6, -1), 100);
    assert_eq!(stmt.cursor.current_row_index(), 0);
    // A valid absolute target moves.
    assert_eq!(ddbc_sql_fetch_scroll(&mut stmt, 5, 1), 0);
    assert_eq!(stmt.cursor.current_row_index(), 1);
    // An absolute target before the start: no data, no movement.
    assert_eq!(ddbc_sql_fetch_scroll(&mut stmt, 5, -1), 100);
    assert_eq!(stmt.cursor.current_row_index(), 1);
    // A valid relative move back.
    assert_eq!(ddbc_sql_fetch_scroll(&mut stmt, 6, -1), 0);
    assert_eq!(stmt.cursor.current_row_index(), 0);
    // An unknown orientation reports no data.
    assert_eq!(ddbc_sql_fetch_scroll(&mut stmt, 1, 0), 100);
}

#[test]
fn scroll_absolute_on_empty_buffer() {
    let mut cursor = TdsCursor::new();
    cursor.process_results(vec![int_set(b"n", &[])]);
    let mut stmt = StatementHandle { cursor };
    assert_eq!(ddbc_sql_fetch_scroll(&mut stmt, 5, 0), 100);
    assert_eq!(stmt.cursor.current_row_index(), 0);
}

#[test]
fn fetch_surface_walks_the_buffer() {
    let mut cursor = TdsCursor::new();
    cursor.process_results(vec![int_set(b"n", &[1, 2, 3, 4, 5])]);
    assert_eq!(cursor.row_count_total(), 5);
    assert_eq!(cursor.fetchone().unwrap(), vec![CompactValue::I64(1)]);
    let two = cursor.fetchmany(2);
    assert_eq!(two, vec![vec![CompactValue::I64(2)], vec![CompactValue::I64(3)]]);
    let rest = cursor.fetchall();
    assert_eq!(rest, vec![vec![CompactValue::I64(4)], vec![CompactValue::I64(5)]]);
    assert!(cursor.fetchone().is_none());
    assert_eq!(cursor.fetchmany(3), Vec::<Vec<CompactValue>>::new());
}

#[test]
fn statement_surface_stubs_and_rowcount() {
    let mut cursor = TdsCursor::new();
    cursor.finish_execute_many(12);
    let mut stmt = StatementHandle { cursor };
    assert_eq!(ddbc_sql_row_count(&stmt), 12);
    assert_eq!(ddbc_sql_set_stmt_attr(&stmt, 1, 2), 0);
    assert!(ddbc_sql_get_all_diag_records(&stmt).is_empty());
    stmt.free();
    assert_eq!(ddbc_sql_row_count(&stmt), 12);
}

#[test]
fn execute_many_sums_nonnegative_counts() {
    let mut total: i64 = 0;
    for c in [3i64, -1, 4] {
        total = accumulate_rowcount(total, c);
    }
    assert_eq!(total, 7);
}

#[test]
fn close_clears_buffers() {
    let mut cursor = TdsCursor::new();
    cursor.process_results(vec![int_set(b"n", &[1]), int_set(b"m", &[2])]);
    cursor.close();
    assert!(cursor.description().is_none());
    assert!(cursor.fetchone().is_none());
    assert!(!cursor.nextset());
}

#[test]
fn ddbc_fetch_surface_reports_no_data() {
    let mut cursor = TdsCursor::new();
    cursor.process_results(vec![int_set(b"n", &[1, 2, 3])]);
    let mut stmt = StatementHandle { cursor };
    let (code, row) = ddbc_sql_fetch_one(&mut stmt);
    assert_eq!(code, 0);
    assert_eq!(row, vec![CompactValue::I64(1)]);
    let (code2, rows) = ddbc_sql_fetch_many(&mut stmt, 5);
    assert_eq!(code2, 0);
    assert_eq!(rows.len(), 2);
    let (code3, row3) = ddbc_sql_fetch_one(&mut stmt);
    assert_eq!(code3, 100);
    assert!(row3.is_empty());
    let (code4, rest) = ddbc_sql_fetch_all(&mut stmt);
    assert_eq!(code4, 0);
    assert!(rest.is_empty());
}
