//! SQL text rewriting ahead of execution: ODBC call-syntax conversion, the
//! rowcount-probe heuristic, and batch assembly.

use vstd::prelude::*;

use crate::ascii::{
    ascii_bytes, find_byte, push_bytes, spec_ascii, spec_starts_with, spec_trim, spec_upper_seq,
    starts_with, to_upper, trim,
};

verus! {

/// Index of the first occurrence of `b` in `s`; the length when absent.
pub open spec fn spec_find_byte(s: Seq<u8>, b: u8) -> int
    decreases s.len(),
{
    if s.len() == 0 {
        0
    } else if s[0] == b {
        0
    } else {
        1 + spec_find_byte(s.drop_first(), b)
    }
}

pub proof fn lemma_find_byte_at(s: Seq<u8>, b: u8, i: int)
    requires
        0 <= i < s.len(),
        s[i] == b,
        forall|j: int| 0 <= j < i ==> s[j] != b,
    ensures
        spec_find_byte(s, b) == i,
    decreases i,
{
    if i == 0 {
    } else {
        let t = s.drop_first();
        assert(forall|j: int| 0 <= j < i - 1 ==> t[j] != b);
        lemma_find_byte_at(t, b, i - 1);
    }
}

pub proof fn lemma_find_byte_absent(s: Seq<u8>, b: u8)
    requires
        forall|j: int| 0 <= j < s.len() ==> s[j] != b,
    ensures
        spec_find_byte(s, b) == s.len(),
    decreases s.len(),
{
    if s.len() > 0 {
        let t = s.drop_first();
        assert(forall|j: int| 0 <= j < t.len() ==> t[j] != b);
        lemma_find_byte_absent(t, b);
    }
}

/// The ODBC call-syntax rewrite, `{CALL proc(args)}` to `EXEC proc args`:
/// a trimmed statement braced `{`...`}` whose inner text starts (after case
/// folding) with `CALL ` is rewritten; everything else passes through. A
/// missing argument list and a missing closing parenthesis are tolerated.
pub open spec fn spec_convert_call(sql: Seq<u8>) -> Seq<u8> {
    let t = spec_trim(sql);
    if t.len() >= 2 && t[0] == 0x7b && t.last() == 0x7d {
        let inner = spec_trim(t.subrange(1, t.len() - 1));
        if spec_starts_with(spec_upper_seq(inner), spec_ascii("CALL ")) {
            let rest = spec_trim(inner.subrange(5, inner.len() as int));
            let paren = spec_find_byte(rest, 0x28);
            if paren < rest.len() {
                let proc_name = spec_trim(rest.subrange(0, paren));
                let args_end = if paren + 1 <= rest.len() - 1 {
                    rest.len() - 1
                } else {
                    paren + 1
                };
                let args = spec_trim(rest.subrange(paren + 1, args_end));
                spec_ascii("EXEC ") + proc_name + seq![0x20u8] + args
            } else {
                spec_ascii("EXEC ") + rest
            }
        } else {
            sql
        }
    } else {
        sql
    }
}

/// Rewrites ODBC call syntax into an `EXEC` statement.
pub fn convert_call_syntax(sql: &[u8]) -> (r: Vec<u8>)
    ensures
        r@ == spec_convert_call(sql@),
{
    proof {
        reveal_strlit("CALL ");
        reveal_strlit("EXEC ");
    }
    let t = trim(sql);
    if t.len() >= 2 && t[0] == 0x7b && t[t.len() - 1] == 0x7d {
        let braced = vstd::slice::slice_subrange(t.as_slice(), 1, t.len() - 1);
        let inner = trim(braced);
        let inner_upper = to_upper(inner.as_slice());
        let call_kw = ascii_bytes("CALL ");
        if starts_with(inner_upper.as_slice(), call_kw.as_slice()) {
            let after = vstd::slice::slice_subrange(inner.as_slice(), 5, inner.len());
            let rest = trim(after);
            proof {
                assert(after@ =~= inner@.subrange(5, inner@.len() as int));
            }
            let mut out = ascii_bytes("EXEC ");
            match find_byte(rest.as_slice(), 0x28) {
                Some(paren) => {
                    proof {
                        lemma_find_byte_at(rest@, 0x28, paren as int);
                        assert(paren < rest@.len());
                        assert(rest@.len() == rest.len());
                    }
                    let head = vstd::slice::slice_subrange(rest.as_slice(), 0, paren);
                    let proc_name = trim(head);
                    let args_end: usize = if paren + 1 <= rest.len() - 1 {
                        rest.len() - 1
                    } else {
                        paren + 1
                    };
                    let args_slice = vstd::slice::slice_subrange(
                        rest.as_slice(),
                        paren + 1,
                        args_end,
                    );
                    let args = trim(args_slice);
                    push_bytes(&mut out, proc_name.as_slice());
                    out.push(0x20);
                    push_bytes(&mut out, args.as_slice());
                    proof {
                        assert(out@ =~= spec_ascii("EXEC ") + proc_name@ + seq![0x20u8] + args@);
                    }
                    out
                },
                None => {
                    proof {
                        lemma_find_byte_absent(rest@, 0x28);
                    }
                    push_bytes(&mut out, rest.as_slice());
                    out
                },
            }
        } else {
            let mut out: Vec<u8> = Vec::new();
            push_bytes(&mut out, sql);
            proof {
                assert(out@ =~= sql@);
            }
            out
        }
    } else {
        let mut out: Vec<u8> = Vec::new();
        push_bytes(&mut out, sql);
        proof {
            assert(out@ =~= sql@);
        }
        out
    }
}

/// Whether the statement is one of the data-changing verbs that report a
/// rowcount: INSERT, UPDATE, DELETE, TRUNCATE or MERGE, after trimming and
/// case folding.
pub open spec fn spec_is_dml(sql: Seq<u8>) -> bool {
    let u = spec_upper_seq(spec_trim(sql));
    ||| spec_starts_with(u, spec_ascii("INSERT "))
    ||| spec_starts_with(u, spec_ascii("UPDATE "))
    ||| spec_starts_with(u, spec_ascii("DELETE "))
    ||| spec_starts_with(u, spec_ascii("TRUNCATE "))
    ||| spec_starts_with(u, spec_ascii("MERGE "))
}

/// Whether the statement is a DDL form that must not get a trailing probe:
/// CREATE or ALTER of a VIEW, TRIGGER, FUNCTION, PROCEDURE or PROC, and the
/// combined CREATE OR ALTER.
pub open spec fn spec_is_probe_excluded(sql: Seq<u8>) -> bool {
    let u = spec_upper_seq(spec_trim(sql));
    ||| spec_starts_with(u, spec_ascii("CREATE VIEW"))
    ||| spec_starts_with(u, spec_ascii("ALTER VIEW"))
    ||| spec_starts_with(u, spec_ascii("CREATE TRIGGER"))
    ||| spec_starts_with(u, spec_ascii("ALTER TRIGGER"))
    ||| spec_starts_with(u, spec_ascii("CREATE FUNCTION"))
    ||| spec_starts_with(u, spec_ascii("ALTER FUNCTION"))
    ||| spec_starts_with(u, spec_ascii("CREATE PROCEDURE"))
    ||| spec_starts_with(u, spec_ascii("ALTER PROCEDURE"))
    ||| spec_starts_with(u, spec_ascii("CREATE PROC "))
    ||| spec_starts_with(u, spec_ascii("ALTER PROC "))
    ||| spec_starts_with(u, spec_ascii("CREATE OR ALTER"))
}

/// The rowcount-injection decision: a data-changing statement that is not an
/// excluded DDL form gets `SELECT @@ROWCOUNT` appended to its batch.
pub open spec fn spec_needs_probe(sql: Seq<u8>) -> bool {
    spec_is_dml(sql) && !spec_is_probe_excluded(sql)
}

/// Decides rowcount injection for a statement.
pub fn needs_rowcount_probe(sql: &[u8]) -> (r: bool)
    ensures
        r == spec_needs_probe(sql@),
{
    proof {
        reveal_strlit("INSERT ");
        reveal_strlit("UPDATE ");
        reveal_strlit("DELETE ");
        reveal_strlit("TRUNCATE ");
        reveal_strlit("MERGE ");
        reveal_strlit("CREATE VIEW");
        reveal_strlit("ALTER VIEW");
        reveal_strlit("CREATE TRIGGER");
        reveal_strlit("ALTER TRIGGER");
        reveal_strlit("CREATE FUNCTION");
        reveal_strlit("ALTER FUNCTION");
        reveal_strlit("CREATE PROCEDURE");
        reveal_strlit("ALTER PROCEDURE");
        reveal_strlit("CREATE PROC ");
        reveal_strlit("ALTER PROC ");
        reveal_strlit("CREATE OR ALTER");
    }
    let trimmed = trim(sql);
    let u = to_upper(trimmed.as_slice());
    let us = u.as_slice();
    let needs = starts_with(us, ascii_bytes("INSERT ").as_slice()) || starts_with(
        us,
        ascii_bytes("UPDATE ").as_slice(),
    ) || starts_with(us, ascii_bytes("DELETE ").as_slice()) || starts_with(
        us,
        ascii_bytes("TRUNCATE ").as_slice(),
    ) || starts_with(us, ascii_bytes("MERGE ").as_slice());
    let skip = starts_with(us, ascii_bytes("CREATE VIEW").as_slice()) || starts_with(
        us,
        ascii_bytes("ALTER VIEW").as_slice(),
    ) || starts_with(us, ascii_bytes("CREATE TRIGGER").as_slice()) || starts_with(
        us,
        ascii_bytes("ALTER TRIGGER").as_slice(),
    ) || starts_with(us, ascii_bytes("CREATE FUNCTION").as_slice()) || starts_with(
        us,
        ascii_bytes("ALTER FUNCTION").as_slice(),
    ) || starts_with(us, ascii_bytes("CREATE PROCEDURE").as_slice()) || starts_with(
        us,
        ascii_bytes("ALTER PROCEDURE").as_slice(),
    ) || starts_with(us, ascii_bytes("CREATE PROC ").as_slice()) || starts_with(
        us,
        ascii_bytes("ALTER PROC ").as_slice(),
    ) || starts_with(us, ascii_bytes("CREATE OR ALTER").as_slice());
    needs && !skip
}

/// The probe statement appended to a batch that needs a rowcount.
pub open spec fn spec_probe_suffix() -> Seq<u8> {
    spec_ascii("\nSELECT @@ROWCOUNT AS __rowcount__")
}

/// The name of the synthetic rowcount column.
pub open spec fn spec_rowcount_column() -> Seq<u8> {
    spec_ascii("__rowcount__")
}

/// The synthetic rowcount column name as bytes.
pub fn rowcount_column_name() -> (r: Vec<u8>)
    ensures
        r@ == spec_rowcount_column(),
{
    proof {
        reveal_strlit("__rowcount__");
    }
    ascii_bytes("__rowcount__")
}

/// Assembles the batch: the optional implicit-transaction prefix, the
/// statement, and the probe when one is wanted.
pub fn build_batch(sql: &[u8], tx_prefix: Option<Vec<u8>>, probe: bool) -> (r: Vec<u8>)
    ensures
        r@ == (match tx_prefix {
            Some(p) => p@,
            None => Seq::empty(),
        }) + sql@ + (if probe {
            spec_probe_suffix()
        } else {
            Seq::<u8>::empty()
        }),
{
    let mut out: Vec<u8> = Vec::new();
    match tx_prefix {
        Some(p) => {
            push_bytes(&mut out, p.as_slice());
        },
        None => {},
    }
    push_bytes(&mut out, sql);
    if probe {
        proof {
            reveal_strlit("\nSELECT @@ROWCOUNT AS __rowcount__");
        }
        let suffix = ascii_bytes("\nSELECT @@ROWCOUNT AS __rowcount__");
        push_bytes(&mut out, suffix.as_slice());
    }
    proof {
        assert(out@ =~= (match tx_prefix {
            Some(p) => p@,
            None => Seq::<u8>::empty(),
        }) + sql@ + (if probe {
            spec_probe_suffix()
        } else {
            Seq::<u8>::empty()
        }));
    }
    out
}

} // verus!
