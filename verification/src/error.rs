//! Errors of subscription matching.
use crate::ast::Expr;
use vstd::prelude::*;

verus! {

#[verifier::external_type_specification]
#[verifier::external_body]
pub struct ExLexerError(sqlite3_parser::lexer::sql::Error);

#[verifier::external_type_specification]
#[verifier::external_body]
pub struct ExSqliteError(rusqlite::Error);

#[verifier::external_type_specification]
#[verifier::external_body]
pub struct ExFromSqlError(rusqlite::types::FromSqlError);

#[verifier::external_type_specification]
#[verifier::external_body]
pub struct ExIoError(std::io::Error);

#[verifier::external_type_specification]
#[verifier::external_body]
pub struct ExSpeedyError(speedy::Error);

#[verifier::external_type_specification]
#[verifier::external_body]
pub struct ExAcquireError(tokio::sync::AcquireError);

/// Failure to unpack a value read back from the store.
#[derive(Debug)]
pub enum UnpackError {
    Abort,
    Misuse,
}

/// Why a subscription could not be set up or served.
#[derive(Debug)]
pub enum MatcherError {
    Lexer(sqlite3_parser::lexer::sql::Error),
    StatementRequired,
    UnsupportedStatement,
    TableRequired,
    Sqlite(rusqlite::Error),
    TableNotFound(String),
    NoPrimaryKey(String),
    AggPrimaryKeyMissing(String, String),
    JoinOnExprUnsupported { table: String, expr: Box<Expr> },
    UnsupportedExpr { expr: Expr },
    TableStarNotFound { tbl_name: String },
    QualificationRequired { col_name: String },
    TableForColumnNotFound { col_name: String },
    MissingPrimaryKeys,
    ChangeQueueClosedOrFull,
    NoChangeInserted,
    EventReceiverClosed,
    Unpack(UnpackError),
    InsertSub,
    FromSql(rusqlite::types::FromSqlError),
    Io(std::io::Error),
    ChangesetEncode(speedy::Error),
    QueueFull,
    CannotRestoreExisting,
    WritePermitAcquire(tokio::sync::AcquireError),
    NotRunning,
    MissingSql,
}

impl MatcherError {
    /// Whether this error says that the receiver of query events is gone.
    pub fn is_event_recv_closed(&self) -> (r: bool)
        ensures
            r == (*self is EventReceiverClosed),
    {
        match self {
            MatcherError::EventReceiverClosed => true,
            _ => false,
        }
    }
}

} // verus!
