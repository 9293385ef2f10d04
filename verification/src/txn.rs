//! The transaction state machine: autocommit and in-transaction flags shared
//! by every cursor of a connection, and the SQL each transition must run.
//!
//! The machine only decides; the surrounding program executes the returned
//! statements on the wire. Failure handling follows the driver contract: a
//! commit failure surfaces, a rollback failure is swallowed by the caller.

use vstd::prelude::*;

use crate::ascii::{ascii_bytes, spec_ascii};

verus! {

/// Shared autocommit/in-transaction flags of one connection.
pub struct TransactionState {
    pub autocommit: bool,
    pub in_transaction: bool,
}

/// The statement that opens an implicit transaction, prefixed to a batch.
pub open spec fn spec_begin_prefix() -> Seq<u8> {
    spec_ascii("BEGIN TRANSACTION\n")
}

/// The guarded commit statement.
pub open spec fn spec_commit_sql() -> Seq<u8> {
    spec_ascii("IF @@TRANCOUNT > 0 COMMIT TRANSACTION")
}

/// The guarded rollback statement.
pub open spec fn spec_rollback_sql() -> Seq<u8> {
    spec_ascii("IF @@TRANCOUNT > 0 ROLLBACK TRANSACTION")
}

/// Whether an execute in state `s` must open an implicit transaction.
pub open spec fn spec_needs_begin(s: TransactionState) -> bool {
    !s.autocommit && !s.in_transaction
}

impl TransactionState {
    /// Fresh state right after connect: autocommit off, no transaction open.
    pub fn new() -> (r: TransactionState)
        ensures
            !r.autocommit,
            !r.in_transaction,
    {
        TransactionState { autocommit: false, in_transaction: false }
    }

    /// Decision taken at the start of every execute: while autocommit is off
    /// and no transaction is open, the batch gets a `BEGIN TRANSACTION`
    /// prefix and the transaction is recorded as open; otherwise nothing
    /// changes.
    pub fn begin_transaction_if_needed(&mut self) -> (r: Option<Vec<u8>>)
        ensures
            r is Some <==> spec_needs_begin(*old(self)),
            final(self).autocommit == old(self).autocommit,
            final(self).in_transaction == (old(self).in_transaction || spec_needs_begin(
                *old(self),
            )),
            match r {
                Some(p) => p@ == spec_begin_prefix(),
                None => *final(self) == *old(self),
            },
    {
        if !self.autocommit && !self.in_transaction {
            self.in_transaction = true;
            proof {
                reveal_strlit("BEGIN TRANSACTION\n");
            }
            Some(ascii_bytes("BEGIN TRANSACTION\n"))
        } else {
            None
        }
    }

    /// Commit decision: only an open transaction issues the guarded commit;
    /// either way no transaction is open afterwards and autocommit is kept.
    pub fn commit_action(&mut self) -> (r: Option<Vec<u8>>)
        ensures
            r is Some <==> old(self).in_transaction,
            final(self).autocommit == old(self).autocommit,
            !final(self).in_transaction,
            match r {
                Some(sql) => sql@ == spec_commit_sql(),
                None => *final(self) == *old(self),
            },
    {
        if self.in_transaction {
            self.in_transaction = false;
            proof {
                reveal_strlit("IF @@TRANCOUNT > 0 COMMIT TRANSACTION");
            }
            Some(ascii_bytes("IF @@TRANCOUNT > 0 COMMIT TRANSACTION"))
        } else {
            None
        }
    }

    /// Rollback decision, the mirror image of `commit_action`; the caller
    /// swallows a failure of the returned statement.
    pub fn rollback_action(&mut self) -> (r: Option<Vec<u8>>)
        ensures
            r is Some <==> old(self).in_transaction,
            final(self).autocommit == old(self).autocommit,
            !final(self).in_transaction,
            match r {
                Some(sql) => sql@ == spec_rollback_sql(),
                None => *final(self) == *old(self),
            },
    {
        if self.in_transaction {
            self.in_transaction = false;
            proof {
                reveal_strlit("IF @@TRANCOUNT > 0 ROLLBACK TRANSACTION");
            }
            Some(ascii_bytes("IF @@TRANCOUNT > 0 ROLLBACK TRANSACTION"))
        } else {
            None
        }
    }

    /// Switching autocommit: turning it on while a transaction is open
    /// commits that transaction first, with the same guarded statement a
    /// commit issues; turning it off only arms the next execute.
    pub fn set_autocommit(&mut self, value: bool) -> (r: Option<Vec<u8>>)
        ensures
            final(self).autocommit == value,
            r is Some <==> (value && old(self).in_transaction),
            final(self).in_transaction == (old(self).in_transaction && !value),
            match r {
                Some(sql) => sql@ == spec_commit_sql(),
                None => true,
            },
    {
        if value && self.in_transaction {
            self.in_transaction = false;
            self.autocommit = value;
            proof {
                reveal_strlit("IF @@TRANCOUNT > 0 COMMIT TRANSACTION");
            }
            Some(ascii_bytes("IF @@TRANCOUNT > 0 COMMIT TRANSACTION"))
        } else {
            self.autocommit = value;
            None
        }
    }

    pub fn get_autocommit(&self) -> (r: bool)
        ensures
            r == self.autocommit,
    {
        self.autocommit
    }
}

/// At most one implicit transaction is ever open: once the begin decision
/// has fired, running it again changes nothing and returns no prefix, until
/// a commit or rollback closes the transaction.
pub proof fn lemma_implicit_begin_at_most_once(s: TransactionState)
    requires
        spec_needs_begin(s),
    ensures
        !spec_needs_begin(
            TransactionState { in_transaction: true, ..s },
        ),
{
}

} // verus!
