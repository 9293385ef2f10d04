//! Row buffering for the two-phase decode: a flat per-result-set value
//! buffer with one write method per wire scalar kind, and the multi-set
//! writer that accumulates complete result sets across a batch.

use vstd::prelude::*;

use crate::ascii::{ascii_bytes, push_dec_u64, spec_ascii, spec_dec_digits};
use crate::column::ColumnInfo;
use crate::value::{CompactValue, ValueView};

verus! {

/// One result set's flat cell storage, `col_count` cells per row in row
/// order: the buffer the host bindings fetch their rows from.
pub struct PyRowWriter {
    pub col_count: usize,
    pub values: Vec<CompactValue>,
}

impl PyRowWriter {
    /// Completed rows in the buffer.
    pub open spec fn spec_row_count(&self) -> int {
        if self.col_count == 0 {
            0
        } else {
            self.values@.len() as int / self.col_count as int
        }
    }

    pub fn new(col_count: usize) -> (r: PyRowWriter)
        ensures
            r.col_count == col_count,
            r.values@.len() == 0,
    {
        PyRowWriter { col_count, values: Vec::new() }
    }

    pub fn row_count(&self) -> (r: usize)
        ensures
            r == self.spec_row_count(),
    {
        if self.col_count == 0 {
            0
        } else {
            self.values.len() / self.col_count
        }
    }

    /// The cell at a row and column.
    pub fn get(&self, row: usize, col: usize) -> (r: &CompactValue)
        requires
            row as int * self.col_count as int + col < self.values@.len(),
        ensures
            *r == self.values@[row as int * self.col_count as int + col],
    {
        let n = self.values.len();
        proof {
            assert(row as int * self.col_count as int + col < n);
        }
        &self.values[row * self.col_count + col]
    }

    /// Appends a NULL cell.
    pub fn write_null(&mut self, _col: usize)
        ensures
            final(self).col_count == old(self).col_count,
            final(self).values@ == old(self).values@.push(CompactValue::Null),
    {
        self.values.push(CompactValue::Null);
    }

    /// Appends a boolean cell.
    pub fn write_bool(&mut self, _col: usize, val: bool)
        ensures
            final(self).col_count == old(self).col_count,
            final(self).values@ == old(self).values@.push(CompactValue::Bool(val)),
    {
        self.values.push(CompactValue::Bool(val));
    }

    /// Appends a one-byte integer cell, widened.
    pub fn write_u8(&mut self, _col: usize, val: u8)
        ensures
            final(self).col_count == old(self).col_count,
            final(self).values@ == old(self).values@.push(CompactValue::I64(val as i64)),
    {
        self.values.push(CompactValue::I64(val as i64));
    }

    /// Appends a two-byte integer cell, widened.
    pub fn write_i16(&mut self, _col: usize, val: i16)
        ensures
            final(self).col_count == old(self).col_count,
            final(self).values@ == old(self).values@.push(CompactValue::I64(val as i64)),
    {
        self.values.push(CompactValue::I64(val as i64));
    }

    /// Appends a four-byte integer cell, widened.
    pub fn write_i32(&mut self, _col: usize, val: i32)
        ensures
            final(self).col_count == old(self).col_count,
            final(self).values@ == old(self).values@.push(CompactValue::I64(val as i64)),
    {
        self.values.push(CompactValue::I64(val as i64));
    }

    /// Appends an eight-byte integer cell.
    pub fn write_i64(&mut self, _col: usize, val: i64)
        ensures
            final(self).col_count == old(self).col_count,
            final(self).values@ == old(self).values@.push(CompactValue::I64(val)),
    {
        self.values.push(CompactValue::I64(val));
    }

    /// Appends a float cell, carried as raw bits.
    pub fn write_f64(&mut self, _col: usize, bits: u64)
        ensures
            final(self).col_count == old(self).col_count,
            final(self).values@ == old(self).values@.push(CompactValue::F64Bits(bits)),
    {
        self.values.push(CompactValue::F64Bits(bits));
    }

    /// Appends a text cell.
    pub fn write_str(&mut self, _col: usize, val: Vec<u8>)
        ensures
            final(self).col_count == old(self).col_count,
            final(self).values@ == old(self).values@.push(CompactValue::Str(val)),
    {
        self.values.push(CompactValue::Str(val));
    }

    /// Appends a binary cell.
    pub fn write_bytes(&mut self, _col: usize, val: Vec<u8>)
        ensures
            final(self).col_count == old(self).col_count,
            final(self).values@ == old(self).values@.push(CompactValue::Bytes(val)),
    {
        self.values.push(CompactValue::Bytes(val));
    }

    /// Appends a date cell, days since the Unix epoch.
    pub fn write_date(&mut self, _col: usize, days: i32)
        ensures
            final(self).col_count == old(self).col_count,
            final(self).values@ == old(self).values@.push(CompactValue::Date(days)),
    {
        self.values.push(CompactValue::Date(days));
    }

    /// Appends a time cell, nanoseconds since midnight.
    pub fn write_time(&mut self, _col: usize, nanos: i64)
        ensures
            final(self).col_count == old(self).col_count,
            final(self).values@ == old(self).values@.push(CompactValue::Time(nanos)),
    {
        self.values.push(CompactValue::Time(nanos));
    }

    /// Appends a datetime cell, microseconds since the Unix epoch.
    pub fn write_datetime(&mut self, _col: usize, micros: i64)
        ensures
            final(self).col_count == old(self).col_count,
            final(self).values@ == old(self).values@.push(CompactValue::DateTime(micros)),
    {
        self.values.push(CompactValue::DateTime(micros));
    }

    /// Appends an offset datetime cell.
    pub fn write_datetimeoffset(&mut self, _col: usize, micros: i64, offset_minutes: i16)
        ensures
            final(self).col_count == old(self).col_count,
            final(self).values@ == old(self).values@.push(CompactValue::DateTimeOffset(micros, offset_minutes)),
    {
        self.values.push(CompactValue::DateTimeOffset(micros, offset_minutes));
    }

    /// Appends a decimal cell.
    pub fn write_decimal(&mut self, _col: usize, value: i128, precision: u8, scale: u8)
        ensures
            final(self).col_count == old(self).col_count,
            final(self).values@ == old(self).values@.push(CompactValue::Decimal(value, precision, scale)),
    {
        self.values.push(CompactValue::Decimal(value, precision, scale));
    }

    /// Appends a GUID cell.
    pub fn write_guid(&mut self, _col: usize, bytes: &[u8; 16])
        ensures
            final(self).col_count == old(self).col_count,
            final(self).values@ == old(self).values@.push(CompactValue::Guid(*bytes)),
    {
        self.values.push(CompactValue::Guid(*bytes));
    }

    /// Appends a text cell decoded from UTF-16 code units.
    pub fn write_utf16(&mut self, _col: usize, val: &[u16])
        ensures
            final(self).col_count == old(self).col_count,
            final(self).values@.len() == old(self).values@.len() + 1,
            final(self).values@.subrange(0, old(self).values@.len() as int) == old(self).values@,
            final(self).values@.last()@ == ValueView::Str(spec_utf16_lossy(val@)),
    {
        let decoded = utf16_to_bytes(val);
        let ghost prior = self.values@;
        self.values.push(CompactValue::Str(decoded));
        proof {
            assert(self.values@.subrange(0, prior.len() as int) =~= prior);
        }
    }
}

/// What the standard lossy UTF-16 decode returns: a function of the code
/// units alone.
pub uninterp spec fn spec_utf16_lossy(units: Seq<u16>) -> Seq<u8>;

/// Relies on `String::from_utf16_lossy`: the replacement-character decode of
/// the standard library, a pure function of the code units.
#[verifier::external_body]
fn utf16_to_bytes(val: &[u16]) -> (r: Vec<u8>)
    ensures
        r@ == spec_utf16_lossy(val@),
{
    String::from_utf16_lossy(val).into_bytes()
}

/// The header text of a server informational message, bracketing the
/// message number.
pub open spec fn spec_info_header(number: u32) -> Seq<u8> {
    spec_ascii("[01000] (") + spec_dec_digits(number as nat) + spec_ascii(")")
}

/// Builds the header text of a server informational message.
pub fn info_header(number: u32) -> (r: Vec<u8>)
    ensures
        r@ == spec_info_header(number),
{
    proof {
        reveal_strlit("[01000] (");
        reveal_strlit(")");
    }
    let mut out = ascii_bytes("[01000] (");
    push_dec_u64(&mut out, number as u64);
    out.push(0x29);
    proof {
        assert(out@ =~= spec_info_header(number));
    }
    out
}

/// Accumulates complete result sets across one batch: `on_metadata` closes
/// the set in progress and opens the next, the write methods fill the set in
/// progress, and `finalize` closes the last one.
pub struct MultiSetWriter {
    pub completed: Vec<(Vec<ColumnInfo>, PyRowWriter)>,
    pub messages: Vec<(Vec<u8>, Vec<u8>)>,
    pub current_cols: Option<Vec<ColumnInfo>>,
    pub current: Option<PyRowWriter>,
}

/// The writer after one cell was appended to the set in progress: the
/// finished sets, messages and column list are untouched; with no set in
/// progress the cell is dropped.
pub open spec fn spec_wrote(pre: MultiSetWriter, post: MultiSetWriter, v: CompactValue) -> bool {
    &&& post.completed == pre.completed
    &&& post.messages == pre.messages
    &&& post.current_cols == pre.current_cols
    &&& match pre.current {
        Some(w) => post.current is Some && post.current.unwrap().col_count == w.col_count
            && post.current.unwrap().values@ == w.values@.push(v),
        None => post.current is None,
    }
}

impl MultiSetWriter {
    pub fn new() -> (r: MultiSetWriter)
        ensures
            r.completed@.len() == 0,
            r.messages@.len() == 0,
            r.current_cols is None,
            r.current is None,
    {
        MultiSetWriter {
            completed: Vec::new(),
            messages: Vec::new(),
            current_cols: None,
            current: None,
        }
    }

    /// Closes the set in progress, when a complete one is open, and opens a
    /// fresh empty set for the given columns.
    pub fn on_metadata(&mut self, columns: Vec<ColumnInfo>)
        ensures
            final(self).messages == old(self).messages,
            ({
                match (old(self).current_cols, old(self).current) {
                    (Some(cols), Some(w)) => final(self).completed@ == old(
                        self,
                    ).completed@.push((cols, w)),
                    _ => final(self).completed@ == old(self).completed@,
                }
            }),
            final(self).current_cols == Some(columns),
            final(self).current is Some,
            final(self).current.unwrap().col_count == columns@.len(),
            final(self).current.unwrap().values@.len() == 0,
    {
        let cols_taken = self.current_cols.take();
        let cur_taken = self.current.take();
        match (cols_taken, cur_taken) {
            (Some(cols), Some(w)) => {
                self.completed.push((cols, w));
            },
            _ => {},
        }
        let n = columns.len();
        self.current_cols = Some(columns);
        self.current = Some(PyRowWriter::new(n));
    }

    /// Rows carry their own framing in the flat buffer; nothing to do.
    pub fn on_row_done(&mut self)
        ensures
            *final(self) == *old(self),
    {
    }

    /// Records a server informational message under its bracketed header.
    pub fn on_info(&mut self, number: u32, message: Vec<u8>)
        ensures
            final(self).completed == old(self).completed,
            final(self).current_cols == old(self).current_cols,
            final(self).current == old(self).current,
            final(self).messages@.len() == old(self).messages@.len() + 1,
            final(self).messages@.subrange(0, old(self).messages@.len() as int) == old(
                self,
            ).messages@,
            final(self).messages@.last().0@ == spec_info_header(number),
            final(self).messages@.last().1 == message,
    {
        let header = info_header(number);
        let ghost prior = self.messages@;
        self.messages.push((header, message));
        proof {
            assert(self.messages@.subrange(0, prior.len() as int) =~= prior);
        }
    }

    /// Closes the set in progress and hands back every complete result set,
    /// in emission order.
    pub fn finalize(self) -> (r: Vec<(Vec<ColumnInfo>, PyRowWriter)>)
        ensures
            match (self.current_cols, self.current) {
                (Some(cols), Some(w)) => r@ == self.completed@.push((cols, w)),
                _ => r@ == self.completed@,
            },
    {
        let MultiSetWriter { mut completed, messages: _, current_cols, current } = self;
        match (current_cols, current) {
            (Some(cols), Some(w)) => {
                completed.push((cols, w));
            },
            _ => {},
        }
        completed
    }

    /// Appends one cell to the set in progress.
    pub fn write_null(&mut self, col: usize)
        ensures
            spec_wrote(*old(self), *final(self), CompactValue::Null),
    {
        match self.current.take() {
            Some(mut w) => {
                w.write_null(col);
                self.current = Some(w);
            },
            None => {},
        }
    }

    /// Appends one cell to the set in progress.
    pub fn write_bool(&mut self, col: usize, val: bool)
        ensures
            spec_wrote(*old(self), *final(self), CompactValue::Bool(val)),
    {
        match self.current.take() {
            Some(mut w) => {
                w.write_bool(col, val);
                self.current = Some(w);
            },
            None => {},
        }
    }

    /// Appends one cell to the set in progress.
    pub fn write_u8(&mut self, col: usize, val: u8)
        ensures
            spec_wrote(*old(self), *final(self), CompactValue::I64(val as i64)),
    {
        match self.current.take() {
            Some(mut w) => {
                w.write_u8(col, val);
                self.current = Some(w);
            },
            None => {},
        }
    }

    /// Appends one cell to the set in progress.
    pub fn write_i16(&mut self, col: usize, val: i16)
        ensures
            spec_wrote(*old(self), *final(self), CompactValue::I64(val as i64)),
    {
        match self.current.take() {
            Some(mut w) => {
                w.write_i16(col, val);
                self.current = Some(w);
            },
            None => {},
        }
    }

    /// Appends one cell to the set in progress.
    pub fn write_i32(&mut self, col: usize, val: i32)
        ensures
            spec_wrote(*old(self), *final(self), CompactValue::I64(val as i64)),
    {
        match self.current.take() {
            Some(mut w) => {
                w.write_i32(col, val);
                self.current = Some(w);
            },
            None => {},
        }
    }

    /// Appends one cell to the set in progress.
    pub fn write_i64(&mut self, col: usize, val: i64)
        ensures
            spec_wrote(*old(self), *final(self), CompactValue::I64(val)),
    {
        match self.current.take() {
            Some(mut w) => {
                w.write_i64(col, val);
                self.current = Some(w);
            },
            None => {},
        }
    }

    /// Appends one cell to the set in progress.
    pub fn write_f64(&mut self, col: usize, bits: u64)
        ensures
            spec_wrote(*old(self), *final(self), CompactValue::F64Bits(bits)),
    {
        match self.current.take() {
            Some(mut w) => {
                w.write_f64(col, bits);
                self.current = Some(w);
            },
            None => {},
        }
    }

    /// Appends one cell to the set in progress.
    pub fn write_str(&mut self, col: usize, val: Vec<u8>)
        ensures
            spec_wrote(*old(self), *final(self), CompactValue::Str(val)),
    {
        match self.current.take() {
            Some(mut w) => {
                w.write_str(col, val);
                self.current = Some(w);
            },
            None => {},
        }
    }

    /// Appends one cell to the set in progress.
    pub fn write_bytes(&mut self, col: usize, val: Vec<u8>)
        ensures
            spec_wrote(*old(self), *final(self), CompactValue::Bytes(val)),
    {
        match self.current.take() {
            Some(mut w) => {
                w.write_bytes(col, val);
                self.current = Some(w);
            },
            None => {},
        }
    }

    /// Appends one cell to the set in progress.
    pub fn write_date(&mut self, col: usize, days: i32)
        ensures
            spec_wrote(*old(self), *final(self), CompactValue::Date(days)),
    {
        match self.current.take() {
            Some(mut w) => {
                w.write_date(col, days);
                self.current = Some(w);
            },
            None => {},
        }
    }

    /// Appends one cell to the set in progress.
    pub fn write_time(&mut self, col: usize, nanos: i64)
        ensures
            spec_wrote(*old(self), *final(self), CompactValue::Time(nanos)),
    {
        match self.current.take() {
            Some(mut w) => {
                w.write_time(col, nanos);
                self.current = Some(w);
            },
            None => {},
        }
    }

    /// Appends one cell to the set in progress.
    pub fn write_datetime(&mut self, col: usize, micros: i64)
        ensures
            spec_wrote(*old(self), *final(self), CompactValue::DateTime(micros)),
    {
        match self.current.take() {
            Some(mut w) => {
                w.write_datetime(col, micros);
                self.current = Some(w);
            },
            None => {},
        }
    }

    /// Appends one cell to the set in progress.
    pub fn write_datetimeoffset(&mut self, col: usize, micros: i64, offset_minutes: i16)
        ensures
            spec_wrote(*old(self), *final(self), CompactValue::DateTimeOffset(micros, offset_minutes)),
    {
        match self.current.take() {
            Some(mut w) => {
                w.write_datetimeoffset(col, micros, offset_minutes);
                self.current = Some(w);
            },
            None => {},
        }
    }

    /// Appends one cell to the set in progress.
    pub fn write_decimal(&mut self, col: usize, value: i128, precision: u8, scale: u8)
        ensures
            spec_wrote(*old(self), *final(self), CompactValue::Decimal(value, precision, scale)),
    {
        match self.current.take() {
            Some(mut w) => {
                w.write_decimal(col, value, precision, scale);
                self.current = Some(w);
            },
            None => {},
        }
    }

    /// Appends one cell to the set in progress.
    pub fn write_guid(&mut self, col: usize, bytes: &[u8; 16])
        ensures
            spec_wrote(*old(self), *final(self), CompactValue::Guid(*bytes)),
    {
        match self.current.take() {
            Some(mut w) => {
                w.write_guid(col, bytes);
                self.current = Some(w);
            },
            None => {},
        }
    }

    /// Appends one text cell decoded from UTF-16 to the set in progress.
    pub fn write_utf16(&mut self, col: usize, val: &[u16])
        ensures
            final(self).completed == old(self).completed,
            final(self).messages == old(self).messages,
            final(self).current_cols == old(self).current_cols,
            match old(self).current {
                Some(w) => final(self).current is Some && final(self).current.unwrap().col_count
                    == w.col_count && final(self).current.unwrap().values@.len() == w.values@.len()
                    + 1 && final(self).current.unwrap().values@.subrange(0, w.values@.len() as int)
                    == w.values@ && final(self).current.unwrap().values@.last()@ == ValueView::Str(
                    spec_utf16_lossy(val@),
                ),
                None => final(self).current is None,
            },
    {
        match self.current.take() {
            Some(mut w) => {
                w.write_utf16(col, val);
                self.current = Some(w);
            },
            None => {},
        }
    }
}

} // verus!
