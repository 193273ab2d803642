//! The fatal errors that abort a whole run.  Per-transaction conditions
//! (bad amounts, locked accounts, duplicate ids and the like) are not
//! errors: the offending row is skipped and the ledger is left untouched.

use vstd::prelude::*;

verus! {

/// Declares the error type of the `csv` crate so that it can be carried
/// inside [`EngineError`].  The value is opaque: nothing is assumed of it.
#[verifier::external_type_specification]
#[verifier::external_body]
pub struct ExCsvError(csv::Error);

/// A fatal condition: ingestion stops and no ledger is produced.
#[derive(Debug)]
pub enum EngineError {
    /// The raw bytes could not be split into rows.
    CsvError(csv::Error),
    /// A `client` or `tx` field did not parse as its unsigned integer width.
    ParseIntError,
    /// A row is too short to supply every required column.
    MalformedRow,
    /// Missing column `amount`.
    MissingColumnAmount,
    /// Missing column `tx`.
    MissingColumnTx,
    /// Missing column `client`.
    MissingColumnClient,
    /// Missing column `type`.
    MissingColumnType,
    /// Duplicate column `amount`.
    DuplicateColumnAmount,
    /// Duplicate column `tx`.
    DuplicateColumnTx,
    /// Duplicate column `client`.
    DuplicateColumnClient,
    /// Duplicate column `type`.
    DuplicateColumnType,
}

} // verus!
