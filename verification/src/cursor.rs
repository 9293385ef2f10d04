//! The cursor: statement preparation, the multi-result-set buffer that one
//! execute fills, the rowcount extraction, and the fetch and scroll surface
//! over the buffered rows.
//!
//! The wire round trip itself happens outside this crate: `begin_execute`
//! builds the batch to send, the surrounding program streams it and decodes
//! the result sets, and `process_results` takes them over, all or nothing.

use vstd::prelude::*;

use crate::column::ColumnInfo;
use crate::params::{spec_param_wf, spec_rendered, spec_substitute, ParamValue, substitute_params};
use crate::rewrite::{
    build_batch, convert_call_syntax, needs_rowcount_probe, rowcount_column_name,
    spec_convert_call, spec_needs_probe, spec_probe_suffix, spec_rowcount_column,
};
use crate::txn::{spec_begin_prefix, spec_needs_begin, TransactionState};
use crate::value::CompactValue;
use crate::writer::PyRowWriter;
use crate::ascii::bytes_eq;

verus! {

/// One buffered result set: its column descriptions and its flat cell
/// storage.
pub struct ResultSet {
    pub columns: Vec<ColumnInfo>,
    pub writer: PyRowWriter,
}

/// Per-statement cursor state: the current result set, the FIFO queue of
/// pending sets, the row position, the last rowcount, and the server's
/// informational messages.
pub struct TdsCursor {
    pub columns: Option<Vec<ColumnInfo>>,
    pub writer: Option<PyRowWriter>,
    pub row_index: usize,
    pub last_rowcount: i64,
    pub pending: Vec<ResultSet>,
    pub messages: Vec<(Vec<u8>, Vec<u8>)>,
    /// Whether the batch in flight carries a rowcount probe.
    pub probe_pending: bool,
}

/// Rows buffered in the current result set; none when no set is current.
pub open spec fn spec_current_row_count(c: &TdsCursor) -> int {
    match c.writer {
        Some(w) => w.spec_row_count(),
        None => 0,
    }
}

impl TdsCursor {
    /// The standing invariant: the row position never passes the buffer end.
    pub open spec fn wf(&self) -> bool {
        self.row_index <= spec_current_row_count(self)
    }

    pub fn new() -> (r: TdsCursor)
        ensures
            r.columns is None,
            r.writer is None,
            r.row_index == 0,
            r.last_rowcount == -1,
            r.pending@.len() == 0,
            r.messages@.len() == 0,
            !r.probe_pending,
            r.wf(),
    {
        TdsCursor {
            columns: None,
            writer: None,
            row_index: 0,
            last_rowcount: -1,
            pending: Vec::new(),
            messages: Vec::new(),
            probe_pending: false,
        }
    }

    /// Releases the buffered sets; the cursor keeps its rowcount and
    /// messages, as the statement surface reads them after a close.
    pub fn close(&mut self)
        ensures
            final(self).columns is None,
            final(self).writer is None,
            final(self).pending@.len() == 0,
            final(self).row_index == 0,
            final(self).last_rowcount == old(self).last_rowcount,
            final(self).messages == old(self).messages,
            final(self).wf(),
    {
        self.columns = None;
        self.writer = None;
        self.pending.clear();
        self.row_index = 0;
    }
}

/// The statement text one execute sends, before prefix and probe: the call
/// rewrite, then placeholder substitution when parameters are present.
pub open spec fn spec_final_sql(sql: Seq<u8>, params: Seq<ParamValue>) -> Seq<u8> {
    if params.len() == 0 {
        spec_convert_call(sql)
    } else {
        spec_substitute(spec_convert_call(sql), spec_rendered(params))
    }
}

/// Whether a result set is the synthetic rowcount probe set, under a probe
/// decision `check`: exactly one column, named `__rowcount__`.
pub open spec fn spec_is_probe_set(rs: &ResultSet, check: bool) -> bool {
    check && rs.columns@.len() == 1 && rs.columns@[0].name@ == spec_rowcount_column()
}

/// The result sets with every probe set removed.
pub open spec fn spec_drop_probes(sets: Seq<ResultSet>) -> Seq<ResultSet>
    decreases sets.len(),
{
    if sets.len() == 0 {
        Seq::empty()
    } else if spec_is_probe_set(&sets[0], true) {
        spec_drop_probes(sets.drop_first())
    } else {
        seq![sets[0]] + spec_drop_probes(sets.drop_first())
    }
}

/// The rowcount a probe set reports: the sole integer cell, 0 with no rows,
/// and the unknown marker when the cell is not an integer.
pub open spec fn spec_probe_rowcount(w: PyRowWriter) -> int {
    if w.spec_row_count() > 0 {
        match w.values@[0] {
            CompactValue::I64(v) => v as int,
            _ => -1,
        }
    } else {
        0
    }
}

fn is_probe_set(rs: &ResultSet, check: bool) -> (r: bool)
    ensures
        r == spec_is_probe_set(rs, check),
{
    if !check {
        return false;
    }
    if rs.columns.len() != 1 {
        return false;
    }
    let name = rowcount_column_name();
    bytes_eq(rs.columns[0].name.as_slice(), name.as_slice())
}

impl TdsCursor {
    /// Prepares one execute: rewrites call syntax, substitutes parameters,
    /// decides the rowcount probe, takes the transaction prefix decision on
    /// the shared state, resets the buffered results, and hands back the
    /// batch to stream. The wire round trip happens outside; its decoded
    /// result sets come back through `process_results`.
    pub fn begin_execute(
        &mut self,
        sql: &[u8],
        params: &Vec<ParamValue>,
        tx: &mut TransactionState,
    ) -> (r: Vec<u8>)
        requires
            forall|j: int| 0 <= j < params@.len() ==> spec_param_wf(#[trigger] params@[j]),
        ensures
            ({
                let fs = spec_final_sql(sql@, params@);
                r@ == (if spec_needs_begin(*old(tx)) {
                    spec_begin_prefix()
                } else {
                    Seq::<u8>::empty()
                }) + fs + (if spec_needs_probe(fs) {
                    spec_probe_suffix()
                } else {
                    Seq::<u8>::empty()
                })
            }),
            final(self).probe_pending == spec_needs_probe(spec_final_sql(sql@, params@)),
            final(self).columns is None,
            final(self).writer is None,
            final(self).row_index == 0,
            final(self).last_rowcount == -1,
            final(self).pending@.len() == 0,
            final(self).messages == old(self).messages,
            final(self).wf(),
            final(tx).autocommit == old(tx).autocommit,
            final(tx).in_transaction == (old(tx).in_transaction || spec_needs_begin(*old(tx))),
    {
        let rewritten = convert_call_syntax(sql);
        let final_sql: Vec<u8> = if params.len() == 0 {
            rewritten
        } else {
            substitute_params(rewritten.as_slice(), params)
        };
        let probe = needs_rowcount_probe(final_sql.as_slice());
        let tx_prefix = tx.begin_transaction_if_needed();
        self.columns = None;
        self.writer = None;
        self.row_index = 0;
        self.last_rowcount = -1;
        self.pending.clear();
        self.probe_pending = probe;
        build_batch(final_sql.as_slice(), tx_prefix, probe)
    }

    /// Takes over the decoded result sets of one batch, wholesale. With the
    /// probe armed and the first set being the synthetic `__rowcount__` set,
    /// that set yields the affected-row count and disappears, as does any
    /// later probe set; otherwise the first set becomes current with the
    /// rowcount unknown. The rest queue up in emission order. No sets at all
    /// mean zero affected rows.
    pub fn process_results(&mut self, results: Vec<ResultSet>)
        ensures
            final(self).probe_pending == old(self).probe_pending,
            final(self).row_index == 0,
            final(self).wf(),
            results@.len() == 0 ==> {
                &&& final(self).columns is None
                &&& final(self).writer is None
                &&& final(self).last_rowcount == 0
                &&& final(self).pending@.len() == 0
                &&& final(self).messages == old(self).messages
            },
            results@.len() > 0 && spec_is_probe_set(&results@[0], old(self).probe_pending) ==> {
                let rest = spec_drop_probes(results@.drop_first());
                &&& final(self).messages == old(self).messages
                &&& (rest.len() == 0 ==> {
                    &&& final(self).columns is None
                    &&& final(self).writer is None
                    &&& final(self).last_rowcount == spec_probe_rowcount(results@[0].writer)
                    &&& final(self).pending@.len() == 0
                })
                &&& (rest.len() > 0 ==> {
                    &&& final(self).columns == Some(rest[0].columns)
                    &&& final(self).writer == Some(rest[0].writer)
                    &&& final(self).last_rowcount == -1
                    &&& final(self).pending@ == rest.drop_first()
                })
            },
            results@.len() > 0 && !spec_is_probe_set(&results@[0], old(self).probe_pending) ==> {
                &&& final(self).columns == Some(results@[0].columns)
                &&& final(self).writer == Some(results@[0].writer)
                &&& final(self).last_rowcount == -1
                &&& final(self).pending@ == results@.drop_first()
                &&& final(self).messages@.len() == 0
            },
    {
        let mut results = results;
        if results.len() == 0 {
            self.columns = None;
            self.writer = None;
            self.row_index = 0;
            self.last_rowcount = 0;
            self.pending.clear();
            return ;
        }
        let ghost all = results@;
        let first = results.remove(0);
        proof {
            assert(results@ =~= all.drop_first());
        }
        if is_probe_set(&first, self.probe_pending) {
            let rows = first.writer.row_count();
            if rows > 0 {
                proof {
                    assert(first.writer.col_count > 0);
                    assert(first.writer.values@.len() >= first.writer.col_count) by (
                        nonlinear_arith)
                        requires
                            first.writer.col_count > 0,
                            first.writer.values@.len() as int / first.writer.col_count as int > 0,
                    ;
                }
                match first.writer.get(0, 0) {
                    CompactValue::I64(v) => {
                        self.last_rowcount = *v;
                    },
                    _ => {
                        self.last_rowcount = -1;
                    },
                }
            } else {
                self.last_rowcount = 0;
            }
            self.columns = None;
            self.writer = None;
            self.row_index = 0;
            let ghost tail = results@;
            let mut kept: Vec<ResultSet> = Vec::new();
            proof {
                assert(spec_drop_probes(tail) =~= kept@ + spec_drop_probes(results@));
            }
            while results.len() > 0
                invariant
                    spec_drop_probes(tail) == kept@ + spec_drop_probes(results@),
                decreases results@.len(),
            {
                let ghost before = results@;
                let rs = results.remove(0);
                proof {
                    assert(results@ =~= before.drop_first());
                }
                if is_probe_set(&rs, true) {
                } else {
                    let ghost kept0 = kept@;
                    kept.push(rs);
                    proof {
                        assert(kept0 + (seq![before[0]] + spec_drop_probes(before.drop_first()))
                            =~= kept@ + spec_drop_probes(results@));
                    }
                }
            }
            proof {
                assert(spec_drop_probes(results@) =~= Seq::<ResultSet>::empty());
                assert(kept@ =~= kept@ + spec_drop_probes(results@));
                assert(kept@ == spec_drop_probes(tail));
            }
            if kept.len() > 0 {
                let head = kept.remove(0);
                proof {
                    assert(kept@ =~= spec_drop_probes(tail).drop_first());
                }
                self.columns = Some(head.columns);
                self.writer = Some(head.writer);
                self.last_rowcount = -1;
                self.row_index = 0;
            }
            self.pending = kept;
        } else {
            self.columns = Some(first.columns);
            self.writer = Some(first.writer);
            self.last_rowcount = -1;
            self.row_index = 0;
            self.pending = results;
            self.messages.clear();
        }
    }
}


/// A cell index computed from a row below the row count stays inside the
/// flat buffer.
pub proof fn lemma_row_bound(len: int, cc: int, row: int, col: int)
    requires
        cc > 0,
        0 <= row < len / cc,
        0 <= col < cc,
    ensures
        0 <= row * cc + col < len,
    decreases 0int,
{
    assert(0 <= row * cc + col < len) by (nonlinear_arith)
        requires
            cc > 0,
            0 <= row < len / cc,
            0 <= col < cc,
    ;
}

/// Clones one row out of the flat buffer.
fn clone_row(w: &PyRowWriter, row: usize) -> (r: Vec<CompactValue>)
    requires
        w.col_count > 0,
        row < w.spec_row_count(),
    ensures
        r@.len() == w.col_count,
        forall|c: int|
            0 <= c < w.col_count ==> #[trigger] r@[c]@ == w.values@[row as int
                * w.col_count as int + c]@,
{
    let mut out: Vec<CompactValue> = Vec::new();
    let mut c: usize = 0;
    while c < w.col_count
        invariant
            c <= w.col_count,
            w.col_count > 0,
            row < w.spec_row_count(),
            out@.len() == c,
            forall|k: int|
                0 <= k < c ==> #[trigger] out@[k]@ == w.values@[row as int * w.col_count as int
                    + k]@,
        decreases w.col_count - c,
    {
        proof {
            lemma_row_bound(w.values@.len() as int, w.col_count as int, row as int, c as int);
        }
        let cell = w.get(row, c);
        out.push(cell.clone());
        c += 1;
    }
    out
}

impl TdsCursor {
    /// The next buffered row of the current result set, advancing the row
    /// position; nothing once the buffer is exhausted or no set is current.
    pub fn fetchone(&mut self) -> (r: Option<Vec<CompactValue>>)
        requires
            old(self).wf(),
        ensures
            final(self).wf(),
            r is Some <==> old(self).row_index < spec_current_row_count(old(self)),
            final(self).columns == old(self).columns,
            final(self).writer == old(self).writer,
            final(self).pending == old(self).pending,
            final(self).messages == old(self).messages,
            final(self).last_rowcount == old(self).last_rowcount,
            final(self).probe_pending == old(self).probe_pending,
            match r {
                Some(row) => {
                    let w = old(self).writer.unwrap();
                    &&& final(self).row_index == old(self).row_index + 1
                    &&& row@.len() == w.col_count
                    &&& forall|c: int|
                        0 <= c < w.col_count ==> #[trigger] row@[c]@ == w.values@[old(
                            self,
                        ).row_index as int * w.col_count as int + c]@
                },
                None => final(self).row_index == old(self).row_index,
            },
    {
        match &self.writer {
            Some(w) => {
                let rows = w.row_count();
                if self.row_index < rows {
                    proof {
                        assert(w.col_count > 0);
                    }
                    let row = clone_row(w, self.row_index);
                    self.row_index = self.row_index + 1;
                    Some(row)
                } else {
                    None
                }
            },
            None => None,
        }
    }

    /// Up to `size` rows from the current position, advancing past what was
    /// returned.
    pub fn fetchmany(&mut self, size: usize) -> (r: Vec<Vec<CompactValue>>)
        requires
            old(self).wf(),
        ensures
            final(self).wf(),
            final(self).columns == old(self).columns,
            final(self).writer == old(self).writer,
            final(self).pending == old(self).pending,
            final(self).messages == old(self).messages,
            final(self).last_rowcount == old(self).last_rowcount,
            final(self).probe_pending == old(self).probe_pending,
            ({
                let total = spec_current_row_count(old(self));
                let end = if old(self).row_index + size <= total {
                    old(self).row_index + size
                } else {
                    total
                };
                &&& final(self).row_index == end
                &&& r@.len() == end - old(self).row_index
                &&& forall|i: int, c: int|
                    0 <= i < r@.len() && 0 <= c < old(self).writer.unwrap().col_count
                        ==> #[trigger] r@[i]@[c]@ == old(self).writer.unwrap().values@[(old(
                        self,
                    ).row_index + i) * old(self).writer.unwrap().col_count + c]@
                &&& forall|i: int|
                    0 <= i < r@.len() ==> #[trigger] r@[i]@.len() == old(
                        self,
                    ).writer.unwrap().col_count
            }),
    {
        let mut out: Vec<Vec<CompactValue>> = Vec::new();
        match &self.writer {
            Some(w) => {
                let total = w.row_count();
                let end: usize = if size <= total - self.row_index {
                    self.row_index + size
                } else {
                    total
                };
                let ghost start = self.row_index as int;
                let mut i: usize = self.row_index;
                while i < end
                    invariant
                        start <= i <= end,
                        end <= w.spec_row_count(),
                        w == old(self).writer.unwrap(),
                        w.col_count > 0 || i == end,
                        out@.len() == i - start,
                        forall|k: int, c: int|
                            0 <= k < out@.len() && 0 <= c < w.col_count ==> #[trigger] out@[k]@[c]@
                                == w.values@[(start + k) * w.col_count + c]@,
                        forall|k: int|
                            0 <= k < out@.len() ==> #[trigger] out@[k]@.len() == w.col_count,
                    decreases end - i,
                {
                    proof {
                        assert(w.col_count > 0);
                    }
                    let row = clone_row(w, i);
                    out.push(row);
                    i += 1;
                }
                self.row_index = end;
                out
            },
            None => out,
        }
    }

    /// Every remaining row of the current result set, advancing to the end.
    pub fn fetchall(&mut self) -> (r: Vec<Vec<CompactValue>>)
        requires
            old(self).wf(),
        ensures
            final(self).wf(),
            final(self).columns == old(self).columns,
            final(self).writer == old(self).writer,
            final(self).pending == old(self).pending,
            final(self).messages == old(self).messages,
            final(self).last_rowcount == old(self).last_rowcount,
            final(self).probe_pending == old(self).probe_pending,
            ({
                let total = spec_current_row_count(old(self));
                &&& final(self).row_index == total
                &&& r@.len() == total - old(self).row_index
                &&& forall|i: int, c: int|
                    0 <= i < r@.len() && 0 <= c < old(self).writer.unwrap().col_count
                        ==> #[trigger] r@[i]@[c]@ == old(self).writer.unwrap().values@[(old(
                        self,
                    ).row_index + i) * old(self).writer.unwrap().col_count + c]@
                &&& forall|i: int|
                    0 <= i < r@.len() ==> #[trigger] r@[i]@.len() == old(
                        self,
                    ).writer.unwrap().col_count
            }),
    {
        match &self.writer {
            Some(w) => {
                let total = w.row_count();
                let remaining = total - self.row_index;
                self.fetchmany(remaining)
            },
            None => Vec::new(),
        }
    }

    /// Pops the pending queue head into the current result set; reports
    /// whether one existed, and keeps reporting none once exhausted.
    pub fn nextset(&mut self) -> (r: bool)
        ensures
            final(self).wf(),
            r == (old(self).pending@.len() > 0),
            final(self).row_index == 0,
            final(self).messages == old(self).messages,
            final(self).probe_pending == old(self).probe_pending,
            r ==> {
                &&& final(self).columns == Some(old(self).pending@[0].columns)
                &&& final(self).writer == Some(old(self).pending@[0].writer)
                &&& final(self).pending@ == old(self).pending@.drop_first()
                &&& final(self).last_rowcount == -1
            },
            !r ==> {
                &&& final(self).columns is None
                &&& final(self).writer is None
                &&& final(self).pending@.len() == 0
                &&& final(self).last_rowcount == old(self).last_rowcount
            },
    {
        if self.pending.len() == 0 {
            self.columns = None;
            self.writer = None;
            self.row_index = 0;
            return false;
        }
        let next = self.pending.remove(0);
        proof {
            assert(self.pending@ =~= old(self).pending@.drop_first());
        }
        self.columns = Some(next.columns);
        self.writer = Some(next.writer);
        self.row_index = 0;
        self.last_rowcount = -1;
        true
    }

    /// The last affected-row count: a server-reported count, 0 for a batch
    /// with no result set, -1 while a real result set is current.
    pub fn rowcount(&self) -> (r: i64)
        ensures
            r == self.last_rowcount,
    {
        self.last_rowcount
    }

    /// The current result set's column descriptions.
    pub fn description(&self) -> (r: Option<&Vec<ColumnInfo>>)
        ensures
            match r {
                Some(cols) => self.columns == Some(*cols),
                None => self.columns is None,
            },
    {
        self.columns.as_ref()
    }

    /// Rows buffered in the current result set.
    pub fn row_count_total(&self) -> (r: usize)
        ensures
            r == spec_current_row_count(self),
    {
        match &self.writer {
            Some(w) => w.row_count(),
            None => 0,
        }
    }

    pub fn current_row_index(&self) -> (r: usize)
        ensures
            r == self.row_index,
    {
        self.row_index
    }

    /// Repositions inside the buffer; the position never passes the end.
    pub fn set_row_index(&mut self, idx: usize)
        requires
            idx <= spec_current_row_count(old(self)),
        ensures
            final(self).row_index == idx,
            final(self).columns == old(self).columns,
            final(self).writer == old(self).writer,
            final(self).pending == old(self).pending,
            final(self).messages == old(self).messages,
            final(self).last_rowcount == old(self).last_rowcount,
            final(self).probe_pending == old(self).probe_pending,
            final(self).wf(),
    {
        self.row_index = idx;
    }

    /// The server's informational messages, as header and text pairs.
    pub fn get_messages(&self) -> (r: &Vec<(Vec<u8>, Vec<u8>)>)
        ensures
            r == &self.messages,
    {
        &self.messages
    }

    /// Closes an `executeMany` loop: the driver reports the sum of the
    /// per-row counts as the statement's rowcount.
    pub fn finish_execute_many(&mut self, total: i64)
        ensures
            final(self).last_rowcount == total,
            final(self).columns == old(self).columns,
            final(self).writer == old(self).writer,
            final(self).pending == old(self).pending,
            final(self).messages == old(self).messages,
            final(self).row_index == old(self).row_index,
            final(self).probe_pending == old(self).probe_pending,
    {
        self.last_rowcount = total;
    }
}

/// One summation step of `executeMany`: only a non-negative per-call count
/// adds to the running total.
pub fn accumulate_rowcount(total: i64, rowcount: i64) -> (r: i64)
    requires
        i64::MIN <= total as int + rowcount as int <= i64::MAX,
    ensures
        r as int == if rowcount >= 0 {
            total as int + rowcount as int
        } else {
            total as int
        },
{
    if rowcount >= 0 {
        total + rowcount
    } else {
        total
    }
}

} // verus!
