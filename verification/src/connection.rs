//! The connection manager: connection-string parsing with its defaults, the
//! open/closed handle state, the transaction decisions a connection takes,
//! and the scalar-probe extraction behind the metadata queries.
//!
//! Transport establishment is the surrounding program's work; a connection
//! string without a `server` key is rejected here, before any network
//! attempt could be made.

use vstd::prelude::*;

use crate::ascii::{
    ascii_bytes, bytes_eq, eq_ignore_case, find_byte, parse_u16, spec_ascii, spec_is_u16,
    spec_digits_value, spec_lower_seq, spec_trim, spec_u16_digits, to_lower, trim,
};
use crate::cursor::{ResultSet, TdsCursor};
use crate::errors::{DriverError, ErrorKind};
use crate::rewrite::spec_find_byte;
use crate::txn::{spec_commit_sql, spec_rollback_sql, TransactionState};
use crate::value::CompactValue;
use crate::writer::PyRowWriter;

verus! {

/// What a connection string yields: the transport endpoint and credentials
/// the protocol client needs.
pub struct ConnectionConfig {
    pub host: Vec<u8>,
    pub port: u16,
    pub database: Vec<u8>,
    pub uid: Vec<u8>,
    pub pwd: Vec<u8>,
    pub trust_cert: bool,
}

/// Ghost image of a connection configuration.
pub struct ConfigView {
    pub host: Seq<u8>,
    pub port: u16,
    pub database: Seq<u8>,
    pub uid: Seq<u8>,
    pub pwd: Seq<u8>,
    pub trust_cert: bool,
}

impl View for ConnectionConfig {
    type V = ConfigView;

    open spec fn view(&self) -> ConfigView {
        ConfigView {
            host: self.host@,
            port: self.port,
            database: self.database@,
            uid: self.uid@,
            pwd: self.pwd@,
            trust_cert: self.trust_cert,
        }
    }
}

/// The defaults before any key applies.
pub open spec fn spec_default_config() -> ConfigView {
    ConfigView {
        host: spec_ascii("localhost"),
        port: 1433,
        database: spec_ascii("master"),
        uid: Seq::empty(),
        pwd: Seq::empty(),
        trust_cert: false,
    }
}

/// The semicolon split of a byte string; always at least one part.
pub open spec fn spec_split(s: Seq<u8>, sep: u8) -> Seq<Seq<u8>>
    decreases s.len(),
{
    if s.len() == 0 {
        seq![Seq::<u8>::empty()]
    } else if s[0] == sep {
        seq![Seq::<u8>::empty()] + spec_split(s.drop_first(), sep)
    } else {
        let rest = spec_split(s.drop_first(), sep);
        seq![seq![s[0]] + rest[0]] + rest.drop_first()
    }
}

proof fn lemma_split_nonempty(s: Seq<u8>, sep: u8)
    ensures
        spec_split(s, sep).len() >= 1,
    decreases s.len(),
{
    if s.len() > 0 {
        lemma_split_nonempty(s.drop_first(), sep);
    }
}

/// Whether a value switches certificate trust on: `yes`, `1` or
/// `true`, case-insensitively.
pub open spec fn spec_truthy(val: Seq<u8>) -> bool {
    ||| spec_lower_seq(val) == spec_ascii("yes")
    ||| val == spec_ascii("1")
    ||| spec_lower_seq(val) == spec_ascii("true")
}

/// One `key=value` part applied to a configuration: keys compare trimmed
/// and case-folded; `server` takes an optional `,port`; unknown keys and
/// parts without `=` change nothing.
pub open spec fn spec_apply_part(c: ConfigView, part: Seq<u8>) -> ConfigView {
    let t = spec_trim(part);
    if t.len() == 0 {
        c
    } else {
        let i = spec_find_byte(t, 0x3d);
        if i >= t.len() {
            c
        } else {
            let key = spec_lower_seq(spec_trim(t.subrange(0, i)));
            let val = spec_trim(t.subrange(i + 1, t.len() as int));
            if key == spec_ascii("server") {
                let ci = spec_find_byte(val, 0x2c);
                if ci >= val.len() {
                    ConfigView { host: val, ..c }
                } else {
                    let ptext = spec_trim(val.subrange(ci + 1, val.len() as int));
                    let port = if spec_is_u16(ptext) {
                        spec_digits_value(spec_u16_digits(ptext)) as u16
                    } else {
                        c.port
                    };
                    ConfigView { host: val.subrange(0, ci), port, ..c }
                }
            } else if key == spec_ascii("database") || key == spec_ascii("initial catalog") {
                ConfigView { database: val, ..c }
            } else if key == spec_ascii("uid") || key == spec_ascii("user id") {
                ConfigView { uid: val, ..c }
            } else if key == spec_ascii("pwd") || key == spec_ascii("password") {
                ConfigView { pwd: val, ..c }
            } else if key == spec_ascii("trustservercertificate") {
                ConfigView { trust_cert: spec_truthy(val), ..c }
            } else {
                c
            }
        }
    }
}

/// The parts applied in order.
pub open spec fn spec_fold_parts(c: ConfigView, parts: Seq<Seq<u8>>) -> ConfigView
    decreases parts.len(),
{
    if parts.len() == 0 {
        c
    } else {
        spec_fold_parts(spec_apply_part(c, parts[0]), parts.drop_first())
    }
}

/// The configuration a connection string denotes.
pub open spec fn spec_parse_connection(s: Seq<u8>) -> ConfigView {
    spec_fold_parts(spec_default_config(), spec_split(s, 0x3b))
}

/// Whether one part carries the `server` key.
pub open spec fn spec_part_is_server(part: Seq<u8>) -> bool {
    let t = spec_trim(part);
    let i = spec_find_byte(t, 0x3d);
    i < t.len() && spec_lower_seq(spec_trim(t.subrange(0, i))) == spec_ascii("server")
}

/// Whether the connection string names a server at all.
pub open spec fn spec_has_server(s: Seq<u8>) -> bool {
    exists|j: int|
        0 <= j < spec_split(s, 0x3b).len() && spec_part_is_server(
            #[trigger] spec_split(s, 0x3b)[j],
        )
}

/// Applies one `key=value` part.
fn apply_part(c: &mut ConnectionConfig, part: &[u8]) -> (server_key: bool)
    ensures
        final(c)@ == spec_apply_part(old(c)@, part@),
        server_key == spec_part_is_server(part@),
{
    proof {
        reveal_strlit("server");
        reveal_strlit("database");
        reveal_strlit("initial catalog");
        reveal_strlit("uid");
        reveal_strlit("user id");
        reveal_strlit("pwd");
        reveal_strlit("password");
        reveal_strlit("trustservercertificate");
        reveal_strlit("yes");
        reveal_strlit("1");
        reveal_strlit("true");
    }
    let t = trim(part);
    if t.len() == 0 {
        return false;
    }
    match find_byte(t.as_slice(), 0x3d) {
        None => {
            proof {
                crate::rewrite::lemma_find_byte_absent(t@, 0x3d);
            }
            false
        },
        Some(i) => {
            proof {
                crate::rewrite::lemma_find_byte_at(t@, 0x3d, i as int);
                assert(i < t@.len());
                assert(t@.len() == t.len());
            }
            let head = vstd::slice::slice_subrange(t.as_slice(), 0, i);
            let key_trimmed = trim(head);
            let key = to_lower(key_trimmed.as_slice());
            let tail = vstd::slice::slice_subrange(t.as_slice(), i + 1, t.len());
            let val = trim(tail);
            let is_server = bytes_eq(key.as_slice(), ascii_bytes("server").as_slice());
            if is_server {
                match find_byte(val.as_slice(), 0x2c) {
                    None => {
                        proof {
                            crate::rewrite::lemma_find_byte_absent(val@, 0x2c);
                        }
                        c.host = val;
                    },
                    Some(ci) => {
                        proof {
                            crate::rewrite::lemma_find_byte_at(val@, 0x2c, ci as int);
                            assert(ci < val@.len());
                            assert(val@.len() == val.len());
                        }
                        let host = vstd::slice::slice_subrange(val.as_slice(), 0, ci);
                        let ptail = vstd::slice::slice_subrange(val.as_slice(), ci + 1, val.len());
                        let ptext = trim(ptail);
                        match parse_u16(ptext.as_slice()) {
                            Some(p) => {
                                c.port = p;
                            },
                            None => {},
                        }
                        let mut h: Vec<u8> = Vec::new();
                        crate::ascii::push_bytes(&mut h, host);
                        proof {
                            assert(h@ =~= val@.subrange(0, ci as int));
                        }
                        c.host = h;
                    },
                }
            } else if bytes_eq(key.as_slice(), ascii_bytes("database").as_slice()) || bytes_eq(
                key.as_slice(),
                ascii_bytes("initial catalog").as_slice(),
            ) {
                c.database = val;
            } else if bytes_eq(key.as_slice(), ascii_bytes("uid").as_slice()) || bytes_eq(
                key.as_slice(),
                ascii_bytes("user id").as_slice(),
            ) {
                c.uid = val;
            } else if bytes_eq(key.as_slice(), ascii_bytes("pwd").as_slice()) || bytes_eq(
                key.as_slice(),
                ascii_bytes("password").as_slice(),
            ) {
                c.pwd = val;
            } else if bytes_eq(key.as_slice(), ascii_bytes("trustservercertificate").as_slice()) {
                proof {
                    assert(spec_lower_seq(spec_ascii("yes")) =~= spec_ascii("yes"));
                    assert(spec_lower_seq(spec_ascii("true")) =~= spec_ascii("true"));
                }
                c.trust_cert = eq_ignore_case(val.as_slice(), ascii_bytes("yes").as_slice())
                    || bytes_eq(val.as_slice(), ascii_bytes("1").as_slice()) || eq_ignore_case(
                    val.as_slice(),
                    ascii_bytes("true").as_slice(),
                );
            }
            is_server
        },
    }
}

/// The split of `s` at semicolons, as byte vectors.
fn split_parts(s: &[u8]) -> (r: Vec<Vec<u8>>)
    ensures
        r@.map_values(|v: Vec<u8>| v@) == spec_split(s@, 0x3b),
{
    let ghost sep: u8 = 0x3b;
    let mut parts: Vec<Vec<u8>> = Vec::new();
    let mut cur: Vec<u8> = Vec::new();
    let mut i: usize = 0;
    proof {
        lemma_split_nonempty(s@, 0x3b);
        let ss = spec_split(s@, 0x3b);
        assert(s@.subrange(0, s@.len() as int) =~= s@);
        assert(parts@.map_values(|v: Vec<u8>| v@) =~= Seq::<Seq<u8>>::empty());
        assert(cur@ + ss[0] =~= ss[0]);
        assert(Seq::<Seq<u8>>::empty() + seq![ss[0]] + ss.drop_first() =~= ss);
    }
    while i < s.len()
        invariant
            i <= s.len(),
            spec_split(s@, 0x3b) == parts@.map_values(|v: Vec<u8>| v@) + seq![
                cur@ + spec_split(s@.subrange(i as int, s@.len() as int), 0x3b)[0],
            ] + spec_split(s@.subrange(i as int, s@.len() as int), 0x3b).drop_first(),
        decreases s.len() - i,
    {
        let ghost rem = s@.subrange(i as int, s@.len() as int);
        let ghost rem2 = s@.subrange(i + 1, s@.len() as int);
        proof {
            assert(rem.drop_first() =~= rem2);
            lemma_split_nonempty(rem2, 0x3b);
        }
        let b = s[i];
        if b == 0x3b {
            let ghost parts0 = parts@;
            let ghost cur0 = cur@;
            parts.push(cur);
            cur = Vec::new();
            i += 1;
            proof {
                let ss = spec_split(rem2, 0x3b);
                assert(spec_split(rem, 0x3b) =~= seq![Seq::<u8>::empty()] + ss);
                assert(cur0 + spec_split(rem, 0x3b)[0] =~= cur0);
                assert(parts@.map_values(|v: Vec<u8>| v@) =~= parts0.map_values(
                    |v: Vec<u8>| v@,
                ).push(cur0));
                assert(parts0.map_values(|v: Vec<u8>| v@) + seq![cur0] + ss.drop_first()
                    =~= parts@.map_values(|v: Vec<u8>| v@) + ss.drop_first());
                assert(seq![Seq::<u8>::empty()] + ss =~= seq![spec_split(rem, 0x3b)[0]]
                    + ss);
                assert(spec_split(rem, 0x3b).drop_first() =~= ss);
                assert(parts@.map_values(|v: Vec<u8>| v@) + seq![Seq::<u8>::empty() + ss[0]]
                    + ss.drop_first() =~= parts@.map_values(|v: Vec<u8>| v@) + seq![ss[0]]
                    + ss.drop_first());
            }
        } else {
            let ghost cur0 = cur@;
            cur.push(b);
            i += 1;
            proof {
                let ss = spec_split(rem2, 0x3b);
                assert(rem[0] == b);
                assert(spec_split(rem, 0x3b) =~= seq![seq![b] + ss[0]] + ss.drop_first());
                assert(cur0 + (seq![b] + ss[0]) =~= (cur0.push(b)) + ss[0]);
                assert(spec_split(rem, 0x3b).drop_first() =~= ss.drop_first());
            }
        }
    }
    proof {
        let rem = s@.subrange(i as int, s@.len() as int);
        assert(rem =~= Seq::<u8>::empty());
        assert(spec_split(rem, 0x3b) =~= seq![Seq::<u8>::empty()]);
        assert(cur@ + Seq::<u8>::empty() =~= cur@);
    }
    let ghost parts0 = parts@;
    let ghost cur0 = cur@;
    parts.push(cur);
    proof {
        assert(parts@.map_values(|v: Vec<u8>| v@) =~= parts0.map_values(|v: Vec<u8>| v@).push(
            cur0,
        ));
        assert(parts0.map_values(|v: Vec<u8>| v@) + seq![cur0] + Seq::<Seq<u8>>::empty()
            =~= parts@.map_values(|v: Vec<u8>| v@));
        assert(spec_split(s@, 0x3b).drop_first().len() == spec_split(s@, 0x3b).len() - 1);
    }
    parts
}

/// Parses a semicolon-delimited `key=value` connection string and reports
/// whether a `server` key occurred: keys are case-insensitive; defaults are
/// host `localhost`, port 1433, database `master`; `server` accepts
/// `host,port` with an unparsable port falling back to the default.
pub fn parse_connection_string(conn_str: &[u8]) -> (r: (ConnectionConfig, bool))
    ensures
        r.0@ == spec_parse_connection(conn_str@),
        r.1 == spec_has_server(conn_str@),
{
    proof {
        reveal_strlit("localhost");
        reveal_strlit("master");
    }
    let mut config = ConnectionConfig {
        host: ascii_bytes("localhost"),
        port: 1433,
        database: ascii_bytes("master"),
        uid: Vec::new(),
        pwd: Vec::new(),
        trust_cert: false,
    };
    let parts = split_parts(conn_str);
    let ghost part_views = spec_split(conn_str@, 0x3b);
    let mut has_server = false;
    let mut k: usize = 0;
    proof {
        assert(config.uid@ =~= Seq::<u8>::empty());
        assert(config.pwd@ =~= Seq::<u8>::empty());
        assert(config@ == spec_default_config());
        assert(part_views.subrange(0, part_views.len() as int) =~= part_views);
    }
    while k < parts.len()
        invariant
            k <= parts@.len(),
            parts@.map_values(|v: Vec<u8>| v@) == part_views,
            spec_parse_connection(conn_str@) == spec_fold_parts(
                config@,
                part_views.subrange(k as int, part_views.len() as int),
            ),
            has_server == exists|j: int|
                0 <= j < k && spec_part_is_server(#[trigger] part_views[j]),
        decreases parts@.len() - k,
    {
        let ghost pre = config@;
        let ghost remv = part_views.subrange(k as int, part_views.len() as int);
        let is_server = apply_part(&mut config, parts[k].as_slice());
        k += 1;
        proof {
            assert(parts@[k - 1]@ == part_views[k - 1]);
            assert(remv[0] == part_views[k - 1]);
            assert(remv.drop_first() =~= part_views.subrange(k as int, part_views.len() as int));
            assert(spec_fold_parts(pre, remv) == spec_fold_parts(
                spec_apply_part(pre, part_views[k - 1]),
                part_views.subrange(k as int, part_views.len() as int),
            ));
        }
        if is_server {
            has_server = true;
        }
    }
    proof {
        assert(part_views.subrange(k as int, part_views.len() as int) =~= Seq::<Seq<u8>>::empty());
    }
    (config, has_server)
}


/// A connection: whether the shared protocol handle is still held, and the
/// transaction state every cursor of this connection shares.
pub struct TdsConnection {
    pub open: bool,
    pub tx_state: TransactionState,
}

/// The message of operations on a closed connection.
pub open spec fn spec_closed_msg() -> Seq<u8> {
    spec_ascii("Connection is closed")
}

/// The connect-time rejection of a connection string without a server.
pub open spec fn spec_no_server_msg() -> Seq<u8> {
    spec_ascii("Neither DSN nor SERVER keyword supplied")
}

fn closed_error() -> (r: DriverError)
    ensures
        r.kind == ErrorKind::RuntimeError,
        r.driver_msg@ == spec_closed_msg(),
        r.ddbc_msg@.len() == 0,
{
    proof {
        reveal_strlit("Connection is closed");
    }
    DriverError {
        kind: ErrorKind::RuntimeError,
        driver_msg: ascii_bytes("Connection is closed"),
        ddbc_msg: Vec::new(),
    }
}

impl TdsConnection {
    /// Validates the connection string and sets up the connection state:
    /// a string without a `server` key fails with a connection error before
    /// any transport work; otherwise the parsed configuration comes back for
    /// the transport layer, and the connection starts with autocommit off
    /// and no transaction open.
    pub fn new(connection_str: &[u8]) -> (r: Result<(TdsConnection, ConnectionConfig), DriverError>)
        ensures
            r is Ok <==> spec_has_server(connection_str@),
            match r {
                Ok((conn, config)) => {
                    &&& conn.open
                    &&& !conn.tx_state.autocommit
                    &&& !conn.tx_state.in_transaction
                    &&& config@ == spec_parse_connection(connection_str@)
                },
                Err(e) => {
                    &&& e.kind == ErrorKind::ConnectionError
                    &&& e.driver_msg@ == spec_no_server_msg()
                },
            },
    {
        let (config, has_server) = parse_connection_string(connection_str);
        if !has_server {
            proof {
                reveal_strlit("Neither DSN nor SERVER keyword supplied");
            }
            return Err(
                DriverError {
                    kind: ErrorKind::ConnectionError,
                    driver_msg: ascii_bytes("Neither DSN nor SERVER keyword supplied"),
                    ddbc_msg: Vec::new(),
                },
            );
        }
        Ok(
            (
                TdsConnection {
                    open: true,
                    tx_state: TransactionState { autocommit: false, in_transaction: false },
                },
                config,
            ),
        )
    }

    /// Releases the shared handle; later operations fail.
    pub fn close(&mut self)
        ensures
            !final(self).open,
            final(self).tx_state == old(self).tx_state,
    {
        self.open = false;
    }

    pub fn get_autocommit(&self) -> (r: bool)
        ensures
            r == self.tx_state.autocommit,
    {
        self.tx_state.get_autocommit()
    }

    /// Commit decision: an open transaction is cleared and yields the
    /// guarded commit statement for the wire — unless the connection is
    /// closed, which fails (the flag stays cleared, as the statement could
    /// never run); with no transaction open this is a no-op.
    pub fn commit(&mut self) -> (r: Result<Option<Vec<u8>>, DriverError>)
        ensures
            final(self).open == old(self).open,
            final(self).tx_state.autocommit == old(self).tx_state.autocommit,
            !final(self).tx_state.in_transaction,
            match r {
                Ok(Some(sql)) => old(self).tx_state.in_transaction && old(self).open && sql@
                    == spec_commit_sql(),
                Ok(None) => !old(self).tx_state.in_transaction,
                Err(e) => old(self).tx_state.in_transaction && !old(self).open && e.kind
                    == ErrorKind::RuntimeError && e.driver_msg@ == spec_closed_msg(),
            },
    {
        match self.tx_state.commit_action() {
            Some(sql) => {
                if self.open {
                    Ok(Some(sql))
                } else {
                    Err(closed_error())
                }
            },
            None => Ok(None),
        }
    }

    /// Rollback decision: as `commit`, but best-effort — a closed
    /// connection swallows the failure and reports nothing to run.
    pub fn rollback(&mut self) -> (r: Option<Vec<u8>>)
        ensures
            final(self).open == old(self).open,
            final(self).tx_state.autocommit == old(self).tx_state.autocommit,
            !final(self).tx_state.in_transaction,
            match r {
                Some(sql) => old(self).tx_state.in_transaction && old(self).open && sql@
                    == spec_rollback_sql(),
                None => !old(self).tx_state.in_transaction || !old(self).open,
            },
    {
        match self.tx_state.rollback_action() {
            Some(sql) => {
                if self.open {
                    Some(sql)
                } else {
                    None
                }
            },
            None => None,
        }
    }

    /// Autocommit switch: turning it on over an open transaction commits
    /// that transaction first, with the guarded commit statement — on a
    /// closed connection that commit cannot run and the switch fails;
    /// turning it off only arms the next execute.
    pub fn set_autocommit(&mut self, value: bool) -> (r: Result<Option<Vec<u8>>, DriverError>)
        ensures
            final(self).open == old(self).open,
            final(self).tx_state.autocommit == value,
            final(self).tx_state.in_transaction == (old(self).tx_state.in_transaction && !value),
            match r {
                Ok(Some(sql)) => value && old(self).tx_state.in_transaction && old(self).open
                    && sql@ == spec_commit_sql(),
                Ok(None) => !(value && old(self).tx_state.in_transaction),
                Err(e) => value && old(self).tx_state.in_transaction && !old(self).open && e.kind
                    == ErrorKind::RuntimeError && e.driver_msg@ == spec_closed_msg(),
            },
    {
        match self.tx_state.set_autocommit(value) {
            Some(sql) => {
                if self.open {
                    Ok(Some(sql))
                } else {
                    Err(closed_error())
                }
            },
            None => Ok(None),
        }
    }

    /// A fresh cursor on this connection; a closed connection has no client
    /// handle to share.
    pub fn alloc_cursor(&mut self) -> (r: Result<TdsCursor, DriverError>)
        ensures
            *final(self) == *old(self),
            r is Ok <==> old(self).open,
            match r {
                Ok(c) => c.wf() && c.pending@.len() == 0 && c.columns is None && c.writer is None,
                Err(e) => e.kind == ErrorKind::RuntimeError && e.driver_msg@ == spec_closed_msg(),
            },
    {
        if self.open {
            Ok(TdsCursor::new())
        } else {
            Err(closed_error())
        }
    }
}

impl TdsConnection {
    /// The scalar behind a metadata probe, extracted from the probe's
    /// decoded result sets: the first string cell of the first result set,
    /// or nothing. A closed connection has no handle the probe could have
    /// run on.
    pub fn query_single_string(&self, results: &Vec<ResultSet>) -> (r: Result<
        Option<Vec<u8>>,
        DriverError,
    >)
        ensures
            r is Ok <==> self.open,
            match r {
                Ok(v) => match spec_first_cell(results@) {
                    Some(CompactValue::Str(sv)) => v is Some && v.unwrap()@ == sv@,
                    _ => v is None,
                },
                Err(e) => e.kind == ErrorKind::RuntimeError && e.driver_msg@ == spec_closed_msg(),
            },
    {
        if !self.open {
            return Err(closed_error());
        }
        Ok(first_string_cell(results))
    }
}

/// The first non-null leading cell of a buffered result set, scanning its
/// rows in order.
pub open spec fn spec_first_cell_in(w: PyRowWriter, row: int) -> Option<CompactValue>
    decreases w.spec_row_count() - row,
{
    if row < 0 || row >= w.spec_row_count() {
        None
    } else {
        match w.values@[row * w.col_count] {
            CompactValue::Null => spec_first_cell_in(w, row + 1),
            v => Some(v),
        }
    }
}

/// The first non-null leading cell of the first result set; later sets are
/// never consulted.
pub open spec fn spec_first_cell(sets: Seq<ResultSet>) -> Option<CompactValue> {
    if sets.len() == 0 {
        None
    } else {
        spec_first_cell_in(sets[0].writer, 0)
    }
}

/// The scalar a metadata probe returns: the first non-null value in column
/// 0 of the first result set, when it is text; anything else — no sets, all
/// nulls, or a non-text value — yields nothing, and the caller falls back.
pub fn first_string_cell(results: &Vec<ResultSet>) -> (r: Option<Vec<u8>>)
    ensures
        match spec_first_cell(results@) {
            Some(CompactValue::Str(sv)) => r is Some && r.unwrap()@ == sv@,
            _ => r is None,
        },
{
    if results.len() == 0 {
        return None;
    }
    let w = &results[0].writer;
    let rows = w.row_count();
    let mut row: usize = 0;
    while row < rows
        invariant
            row <= rows,
            rows == w.spec_row_count(),
            w == &results@[0].writer,
            results@.len() > 0,
            spec_first_cell_in(*w, 0) == spec_first_cell_in(*w, row as int),
        decreases rows - row,
    {
        proof {
            assert(w.col_count > 0);
            crate::cursor::lemma_row_bound(
                w.values@.len() as int,
                w.col_count as int,
                row as int,
                0,
            );
        }
        let cell = w.get(row, 0);
        proof {
            assert(w.values@[row as int * w.col_count as int + 0] == w.values@[row as int
                * w.col_count as int]);
        }
        match cell {
            CompactValue::Null => {
                proof {
                    assert(spec_first_cell_in(*w, row as int) == spec_first_cell_in(*w, row + 1));
                }
                row += 1;
            },
            CompactValue::Str(sv) => {
                proof {
                    assert(w.values@[row as int * w.col_count as int] == CompactValue::Str(*sv));
                    assert(spec_first_cell_in(*w, row as int) == Some(
                        w.values@[row as int * w.col_count as int],
                    ));
                }
                let mut out: Vec<u8> = Vec::new();
                crate::ascii::push_bytes(&mut out, sv.as_slice());
                proof {
                    assert(out@ =~= sv@);
                }
                return Some(out);
            },
            _ => {
                proof {
                    assert(!(w.values@[row as int * w.col_count as int] is Str));
                    assert(!(w.values@[row as int * w.col_count as int] is Null));
                    assert(spec_first_cell_in(*w, row as int) == Some(
                        w.values@[row as int * w.col_count as int],
                    ));
                }
                return None;
            },
        }
    }
    proof {
        assert(spec_first_cell_in(*w, rows as int) is None);
    }
    None
}

} // verus!
