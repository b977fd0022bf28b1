//! Transactions over one SQL connection.
//!
//! The engine applies statements in the order they are issued, so the
//! session models the connection state as the log of applied statements
//! plus, while a transaction is open, the log length at which it began.
//! `rollback` truncates the log to that point; `commit` keeps the log.
//!
//! The transaction token handed back by `begin` is a weak sanity tag of the
//! form `tx_<nanos>`; it round-trips through `commit` and `rollback` but is
//! cosmetic and is not cross-checked, since the connection has only one
//! implicit transaction.

use vstd::prelude::*;
use vstd::string::StringExecFns;
use core::mem;
use crate::hashing::{hex_digit, hex_digit_str};

verus! {

/// The errors a SQL capability call can surface to a guest.
#[derive(Debug, PartialEq, Eq)]
pub enum DbError {
    ToSqlConversionFailure,
    LockError(String),
    SqlExecutionFailure(String),
    WalOperationError(String),
    QueryReturnedNoRows,
    ConversionFailure(String),
}

/// The error surfaced when a connection cannot be opened.
#[derive(Debug, PartialEq, Eq, Structural)]
pub enum DbOpenError {
    ConnectionFailure,
}

/// The reply of `begin`, `commit`, and `rollback`.
#[derive(Debug, PartialEq, Eq)]
pub struct TransactionResult {
    pub transaction_id: String,
    pub success: bool,
}

/// The payload naming a transaction in `commit` and `rollback` calls.
#[derive(Debug, PartialEq, Eq)]
pub struct TransactionIdInput {
    pub transaction_id: String,
}

/// The decimal digits of `n`, most significant first.
pub open spec fn dec_of(n: u64) -> Seq<char>
    decreases n,
{
    if n < 10 {
        seq![hex_digit(n as int)]
    } else {
        dec_of(n / 10) + seq![hex_digit((n % 10) as int)]
    }
}

/// The transaction token minted at `begin`: `tx_` followed by the nanosecond
/// timestamp in decimal.
pub open spec fn tx_id_chars(nanos: u64) -> Seq<char> {
    seq!['t', 'x', '_'] + dec_of(nanos)
}

fn dec_string(n: u64) -> (r: String)
    ensures
        r@ == dec_of(n),
    decreases n,
{
    if n < 10 {
        let mut s = String::new();
        s.append(hex_digit_str((n % 16) as u8));
        proof {
            assert(s@ =~= dec_of(n));
        }
        s
    } else {
        let mut s = dec_string(n / 10);
        s.append(hex_digit_str((n % 10) as u8));
        proof {
            assert(s@ =~= dec_of(n));
        }
        s
    }
}

/// Mint the transaction token for the given timestamp.
pub fn make_transaction_id(nanos: u64) -> (r: String)
    ensures
        r@ == tx_id_chars(nanos),
{
    proof {
        reveal_strlit("tx_");
    }
    let mut s = String::from_str("tx_");
    let digits = dec_string(nanos);
    s.append(digits.as_str());
    proof {
        assert(s@ =~= tx_id_chars(nanos));
    }
    s
}

/// The state of one connection: the statements applied so far, and, while
/// a transaction is open, the log length at which it began.
pub struct SqlSession {
    log: Vec<String>,
    tx_mark: Option<usize>,
}

impl SqlSession {
    /// The statements the connection has applied, in order.
    pub closed spec fn spec_log(&self) -> Seq<String> {
        self.log@
    }

    /// The log length at which the open transaction began, if one is open.
    pub closed spec fn spec_tx_mark(&self) -> Option<usize> {
        self.tx_mark
    }

    /// An open transaction never marks a point beyond the log.
    #[verifier::type_invariant]
    spec fn wf(&self) -> bool {
        self.tx_mark matches Option::Some(m) ==> m <= self.log@.len()
    }

    /// A fresh connection: nothing applied, no open transaction.
    pub fn new() -> (r: SqlSession)
        ensures
            r.spec_log().len() == 0,
            r.spec_tx_mark() is None,
    {
        SqlSession { log: Vec::new(), tx_mark: None }
    }

    /// Record one applied statement.
    pub fn apply(&mut self, sql: String)
        ensures
            final(self).spec_log() == old(self).spec_log().push(sql),
            final(self).spec_tx_mark() == old(self).spec_tx_mark(),
    {
        proof {
            use_type_invariant(&*self);
        }
        let saved_mark = self.tx_mark;
        self.tx_mark = Option::None;
        let mut log: Vec<String> = Vec::new();
        mem::swap(&mut log, &mut self.log);
        log.push(sql);
        mem::swap(&mut log, &mut self.log);
        self.tx_mark = saved_mark;
    }

    /// Open a transaction.  Succeeds exactly when none is open, marking
    /// the current log length and minting a `tx_<nanos>` token; opening a
    /// second transaction fails and changes nothing.
    pub fn begin_transaction(&mut self, now_nanos: u64) -> (r: Result<TransactionResult, DbError>)
        ensures
            r is Ok <==> old(self).spec_tx_mark() is None,
            r matches Ok(t) ==> t.success && t.transaction_id@ == tx_id_chars(now_nanos) && final(self).spec_tx_mark() == Option::Some(old(self).spec_log().len() as usize) && final(self).spec_log() == old(self).spec_log(),
            r is Err ==> *final(self) == *old(self),
    {
        proof {
            use_type_invariant(&*self);
        }
        match self.tx_mark {
            Option::Some(_) => Err(
                DbError::SqlExecutionFailure(
                    String::from_str("cannot begin a transaction within a transaction"),
                ),
            ),
            Option::None => {
                self.tx_mark = Option::Some(self.log.len());
                Ok(
                    TransactionResult {
                        transaction_id: make_transaction_id(now_nanos),
                        success: true,
                    },
                )
            },
        }
    }

    /// Close the open transaction, keeping everything applied inside it.
    /// The token is echoed back, not checked.  Fails when no transaction
    /// is open.
    pub fn commit_transaction(&mut self, transaction_id: String) -> (r: Result<
        TransactionResult,
        DbError,
    >)
        ensures
            r is Ok <==> old(self).spec_tx_mark() is Some,
            r matches Ok(t) ==> t.success && t.transaction_id == transaction_id && final(self).spec_tx_mark() is None && final(self).spec_log() == old(self).spec_log(),
            r is Err ==> *final(self) == *old(self),
    {
        proof {
            use_type_invariant(&*self);
        }
        match self.tx_mark {
            Option::Some(_) => {
                self.tx_mark = Option::None;
                Ok(TransactionResult { transaction_id, success: true })
            },
            Option::None => Err(
                DbError::SqlExecutionFailure(
                    String::from_str("cannot commit - no transaction is active"),
                ),
            ),
        }
    }

    /// Close the open transaction and discard everything applied inside
    /// it: the log returns to its length at `begin`.  The token is echoed
    /// back, not checked.  Fails when no transaction is open.
    pub fn rollback_transaction(&mut self, transaction_id: String) -> (r: Result<
        TransactionResult,
        DbError,
    >)
        ensures
            r is Ok <==> old(self).spec_tx_mark() is Some,
            r matches Ok(t) ==> t.success && t.transaction_id == transaction_id && final(self).spec_tx_mark() is None && (old(self).spec_tx_mark() matches Option::Some(m) && final(self).spec_log() == old(self).spec_log().subrange(0, m as int)),
            r is Err ==> *final(self) == *old(self),
    {
        proof {
            use_type_invariant(&*self);
        }
        match self.tx_mark {
            Option::Some(mark) => {
                self.tx_mark = Option::None;
                let mut log: Vec<String> = Vec::new();
                mem::swap(&mut log, &mut self.log);
                log.truncate(mark);
                mem::swap(&mut log, &mut self.log);
                Ok(TransactionResult { transaction_id, success: true })
            },
            Option::None => Err(
                DbError::SqlExecutionFailure(
                    String::from_str("cannot rollback - no transaction is active"),
                ),
            ),
        }
    }
}

/// The rollback law.  A connection's observable state is its applied log;
/// beginning a transaction, applying any statements inside it, and rolling
/// back leaves the log exactly as it was before `begin`, so subsequent
/// queries observe no effect of the rolled-back statements.
pub proof fn lemma_rollback_undoes_transaction(
    s0: SqlSession,
    s1: SqlSession,
    s2: SqlSession,
    s3: SqlSession,
    stmts: Seq<String>,
)
    requires
        s0.spec_tx_mark() is None,
        s0.spec_log().len() <= usize::MAX,
        s1.spec_log() == s0.spec_log(),
        s1.spec_tx_mark() == Option::Some(s0.spec_log().len() as usize),
        s2.spec_log() == s1.spec_log() + stmts,
        s2.spec_tx_mark() == s1.spec_tx_mark(),
        s2.spec_tx_mark() matches Option::Some(m) && s3.spec_log() == s2.spec_log().subrange(
            0,
            m as int,
        ),
    ensures
        s3.spec_log() == s0.spec_log(),
{
    assert(s2.spec_log().subrange(0, s0.spec_log().len() as int) =~= s0.spec_log());
}

} // verus!
