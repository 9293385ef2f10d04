//! The ODBC-style statement-handle surface over the cursor: rowcount,
//! more-results, scroll repositioning, diagnostics, and the attribute stub.

use vstd::prelude::*;

use crate::cursor::{spec_current_row_count, TdsCursor};
use crate::value::CompactValue;

verus! {

/// A statement handle owning one cursor.
pub struct StatementHandle {
    pub cursor: TdsCursor,
}

impl StatementHandle {
    /// Releases the handle's buffered results.
    pub fn free(&mut self)
        ensures
            final(self).cursor.columns is None,
            final(self).cursor.writer is None,
            final(self).cursor.pending@.len() == 0,
            final(self).cursor.wf(),
    {
        self.cursor.close();
    }
}

/// The last statement's affected-row count.
pub fn ddbc_sql_row_count(stmt: &StatementHandle) -> (r: i64)
    ensures
        r == stmt.cursor.last_rowcount,
{
    stmt.cursor.rowcount()
}

/// Advances to the next buffered result set: success while one is pending,
/// the no-data code once exhausted, and it stays exhausted.
pub fn ddbc_sql_more_results(stmt: &mut StatementHandle) -> (r: i32)
    ensures
        final(stmt).cursor.wf(),
        r == 0 || r == 100,
        (r == 0) <==> old(stmt).cursor.pending@.len() > 0,
        r == 0 ==> {
            &&& final(stmt).cursor.columns == Some(old(stmt).cursor.pending@[0].columns)
            &&& final(stmt).cursor.writer == Some(old(stmt).cursor.pending@[0].writer)
            &&& final(stmt).cursor.pending@ == old(stmt).cursor.pending@.drop_first()
        },
        r == 100 ==> {
            &&& final(stmt).cursor.columns is None
            &&& final(stmt).cursor.writer is None
            &&& final(stmt).cursor.pending@.len() == 0
        },
{
    if stmt.cursor.nextset() {
        0
    } else {
        100
    }
}

/// One row from the current result set: completion code 0 with the row's
/// cells, or the no-data code with no cells once the buffer is exhausted.
pub fn ddbc_sql_fetch_one(stmt: &mut StatementHandle) -> (r: (i32, Vec<CompactValue>))
    requires
        old(stmt).cursor.wf(),
    ensures
        final(stmt).cursor.wf(),
        r.0 == 0 || r.0 == 100,
        (r.0 == 0) <==> old(stmt).cursor.row_index < spec_current_row_count(&old(stmt).cursor),
        r.0 == 0 ==> {
            let w = old(stmt).cursor.writer.unwrap();
            &&& final(stmt).cursor.row_index == old(stmt).cursor.row_index + 1
            &&& r.1@.len() == w.col_count
            &&& forall|c: int|
                0 <= c < w.col_count ==> #[trigger] r.1@[c]@ == w.values@[old(
                    stmt,
                ).cursor.row_index as int * w.col_count as int + c]@
        },
        r.0 == 100 ==> r.1@.len() == 0 && final(stmt).cursor.row_index == old(
            stmt,
        ).cursor.row_index,
{
    match stmt.cursor.fetchone() {
        Some(row) => (0, row),
        None => (100, Vec::new()),
    }
}

/// Up to `size` rows from the current position; the completion code is 0
/// even when fewer rows than asked remain.
pub fn ddbc_sql_fetch_many(stmt: &mut StatementHandle, size: usize) -> (r: (
    i32,
    Vec<Vec<CompactValue>>,
))
    requires
        old(stmt).cursor.wf(),
    ensures
        final(stmt).cursor.wf(),
        r.0 == 0,
        ({
            let total = spec_current_row_count(&old(stmt).cursor);
            let end = if old(stmt).cursor.row_index + size <= total {
                old(stmt).cursor.row_index + size
            } else {
                total
            };
            &&& final(stmt).cursor.row_index == end
            &&& r.1@.len() == end - old(stmt).cursor.row_index
        }),
{
    let rows = stmt.cursor.fetchmany(size);
    (0, rows)
}

/// Every remaining row of the current result set.
pub fn ddbc_sql_fetch_all(stmt: &mut StatementHandle) -> (r: (i32, Vec<Vec<CompactValue>>))
    requires
        old(stmt).cursor.wf(),
    ensures
        final(stmt).cursor.wf(),
        r.0 == 0,
        final(stmt).cursor.row_index == spec_current_row_count(&old(stmt).cursor),
        r.1@.len() == spec_current_row_count(&old(stmt).cursor) - old(stmt).cursor.row_index,
{
    let rows = stmt.cursor.fetchall();
    (0, rows)
}

/// Statement attributes are accepted and ignored.
pub fn ddbc_sql_set_stmt_attr(_stmt: &StatementHandle, _attr: i32, _value: i32) -> (r: i32)
    ensures
        r == 0,
{
    0
}

/// The server's informational messages gathered by the statement.
pub fn ddbc_sql_get_all_diag_records(stmt: &StatementHandle) -> (r: &Vec<(Vec<u8>, Vec<u8>)>)
    ensures
        r == &stmt.cursor.messages,
{
    stmt.cursor.get_messages()
}

/// Scroll orientation: repositioning relative to the current row.
pub open spec fn spec_fetch_relative() -> int {
    6
}

/// Scroll orientation: repositioning to an absolute row.
pub open spec fn spec_fetch_absolute() -> int {
    5
}

/// Repositions inside the buffered result set, with no server round trip.
/// Relative and absolute targets outside the buffer return the no-data code
/// and leave the position where it was, never past the buffer end.
pub fn ddbc_sql_fetch_scroll(stmt: &mut StatementHandle, orientation: i32, offset: i64) -> (r: i32)
    requires
        old(stmt).cursor.wf(),
    ensures
        final(stmt).cursor.wf(),
        r == 0 || r == 100,
        final(stmt).cursor.columns == old(stmt).cursor.columns,
        final(stmt).cursor.writer == old(stmt).cursor.writer,
        final(stmt).cursor.pending == old(stmt).cursor.pending,
        final(stmt).cursor.last_rowcount == old(stmt).cursor.last_rowcount,
        ({
            let total = spec_current_row_count(&old(stmt).cursor);
            let pos = old(stmt).cursor.row_index as int;
            if orientation == spec_fetch_relative() {
                &&& (r == 0 <==> 0 <= pos + offset < total)
                &&& (r == 0 ==> final(stmt).cursor.row_index == pos + offset)
                &&& (r == 100 ==> final(stmt).cursor.row_index == pos)
            } else if orientation == spec_fetch_absolute() {
                &&& (r == 0 <==> 0 <= offset < total)
                &&& (r == 0 ==> final(stmt).cursor.row_index == offset)
                &&& (r == 100 ==> final(stmt).cursor.row_index == pos)
            } else {
                r == 100 && final(stmt).cursor.row_index == pos
            }
        }),
{
    let total = stmt.cursor.row_count_total();
    if orientation == 6 {
        let new_pos: i128 = stmt.cursor.current_row_index() as i128 + offset as i128;
        if new_pos < 0 || new_pos >= total as i128 {
            return 100;
        }
        stmt.cursor.set_row_index(new_pos as usize);
        0
    } else if orientation == 5 {
        if offset < 0 || offset as i128 >= total as i128 {
            return 100;
        }
        stmt.cursor.set_row_index(offset as usize);
        0
    } else {
        100
    }
}

} // verus!
