//! Header resolution: find the positions of the four required logical
//! columns (`type`, `client`, `tx`, `amount`) in the header row.  Each
//! recognized name must appear exactly once; unrecognized names are ignored.

use vstd::prelude::*;
use crate::errors::EngineError;
use crate::text::{strip_field, strip_ws_spec, chars_eq};

verus! {

/// The resolved position of each required column.  `usize::MAX` is the
/// sentinel for "not seen yet".
#[derive(Clone, Copy, Debug, PartialEq, Eq, Structural)]
pub struct ColumnIndex {
    pub type_pos: usize,
    pub client_pos: usize,
    pub tx_pos: usize,
    pub amount_pos: usize,
}

/// The state before any header field has been scanned.
pub open spec fn initial_columns() -> ColumnIndex {
    ColumnIndex {
        type_pos: usize::MAX,
        client_pos: usize::MAX,
        tx_pos: usize::MAX,
        amount_pos: usize::MAX,
    }
}

/// The outcome of `check_missing`: the first required column still unseen,
/// checked in the order `amount`, `tx`, `client`, `type`.
pub open spec fn check_missing_spec(c: ColumnIndex) -> Result<(), EngineError> {
    if c.amount_pos == usize::MAX {
        Err(EngineError::MissingColumnAmount)
    } else if c.tx_pos == usize::MAX {
        Err(EngineError::MissingColumnTx)
    } else if c.client_pos == usize::MAX {
        Err(EngineError::MissingColumnClient)
    } else if c.type_pos == usize::MAX {
        Err(EngineError::MissingColumnType)
    } else {
        Ok(())
    }
}

impl ColumnIndex {
    /// Start with every position unresolved.
    pub fn new() -> (r: Self)
        ensures
            r == initial_columns(),
    {
        ColumnIndex {
            type_pos: usize::MAX,
            client_pos: usize::MAX,
            tx_pos: usize::MAX,
            amount_pos: usize::MAX,
        }
    }

    /// After the scan, every required column must have been found.
    pub fn check_missing(&self) -> (r: Result<(), EngineError>)
        ensures
            r == check_missing_spec(*self),
    {
        if self.amount_pos == usize::MAX {
            return Err(EngineError::MissingColumnAmount);
        }
        if self.tx_pos == usize::MAX {
            return Err(EngineError::MissingColumnTx);
        }
        if self.client_pos == usize::MAX {
            return Err(EngineError::MissingColumnClient);
        }
        if self.type_pos == usize::MAX {
            return Err(EngineError::MissingColumnType);
        }
        Ok(())
    }

    /// Reject a second `amount` column.
    pub fn check_duplicate_amount(&self) -> (r: Result<(), EngineError>)
        ensures
            self.amount_pos != usize::MAX ==> r == Err::<(), EngineError>(
                EngineError::DuplicateColumnAmount,
            ),
            self.amount_pos == usize::MAX ==> r == Ok::<(), EngineError>(()),
    {
        if self.amount_pos != usize::MAX {
            return Err(EngineError::DuplicateColumnAmount);
        }
        Ok(())
    }

    /// Reject a second `tx` column.
    pub fn check_duplicate_tx(&self) -> (r: Result<(), EngineError>)
        ensures
            self.tx_pos != usize::MAX ==> r == Err::<(), EngineError>(
                EngineError::DuplicateColumnTx,
            ),
            self.tx_pos == usize::MAX ==> r == Ok::<(), EngineError>(()),
    {
        if self.tx_pos != usize::MAX {
            return Err(EngineError::DuplicateColumnTx);
        }
        Ok(())
    }

    /// Reject a second `client` column.
    pub fn check_duplicate_client(&self) -> (r: Result<(), EngineError>)
        ensures
            self.client_pos != usize::MAX ==> r == Err::<(), EngineError>(
                EngineError::DuplicateColumnClient,
            ),
            self.client_pos == usize::MAX ==> r == Ok::<(), EngineError>(()),
    {
        if self.client_pos != usize::MAX {
            return Err(EngineError::DuplicateColumnClient);
        }
        Ok(())
    }

    /// Reject a second `type` column.
    pub fn check_duplicate_type(&self) -> (r: Result<(), EngineError>)
        ensures
            self.type_pos != usize::MAX ==> r == Err::<(), EngineError>(
                EngineError::DuplicateColumnType,
            ),
            self.type_pos == usize::MAX ==> r == Ok::<(), EngineError>(()),
    {
        if self.type_pos != usize::MAX {
            return Err(EngineError::DuplicateColumnType);
        }
        Ok(())
    }
}

/// One header field, already cleaned, applied to the scan state.
pub open spec fn resolve_step(c: ColumnIndex, name: Seq<char>, idx: int) -> Result<
    ColumnIndex,
    EngineError,
> {
    if name == "type"@ {
        if c.type_pos != usize::MAX {
            Err(EngineError::DuplicateColumnType)
        } else {
            Ok(ColumnIndex { type_pos: idx as usize, ..c })
        }
    } else if name == "client"@ {
        if c.client_pos != usize::MAX {
            Err(EngineError::DuplicateColumnClient)
        } else {
            Ok(ColumnIndex { client_pos: idx as usize, ..c })
        }
    } else if name == "tx"@ {
        if c.tx_pos != usize::MAX {
            Err(EngineError::DuplicateColumnTx)
        } else {
            Ok(ColumnIndex { tx_pos: idx as usize, ..c })
        }
    } else if name == "amount"@ {
        if c.amount_pos != usize::MAX {
            Err(EngineError::DuplicateColumnAmount)
        } else {
            Ok(ColumnIndex { amount_pos: idx as usize, ..c })
        }
    } else {
        Ok(c)
    }
}

/// The scan state after the first `n` header fields.
pub open spec fn resolve_scan(header: Seq<Seq<char>>, n: int) -> Result<ColumnIndex, EngineError>
    decreases n,
{
    if n <= 0 {
        Ok(initial_columns())
    } else {
        match resolve_scan(header, n - 1) {
            Err(e) => Err(e),
            Ok(c) => resolve_step(c, strip_ws_spec(header[n - 1]), n - 1),
        }
    }
}

/// The full header resolution: scan every field, then demand that all four
/// required columns were found.
pub open spec fn resolve_spec(header: Seq<Seq<char>>) -> Result<ColumnIndex, EngineError> {
    match resolve_scan(header, header.len() as int) {
        Err(e) => Err(e),
        Ok(c) => match check_missing_spec(c) {
            Err(e) => Err(e),
            Ok(u) => Ok(c),
        },
    }
}

/// A scan error is final: later fields cannot undo it.
proof fn lemma_scan_err_persists(header: Seq<Seq<char>>, i: int, j: int, e: EngineError)
    requires
        0 <= i <= j,
        resolve_scan(header, i) == Err::<ColumnIndex, EngineError>(e),
    ensures
        resolve_scan(header, j) == Err::<ColumnIndex, EngineError>(e),
    decreases j - i,
{
    if j > i {
        lemma_scan_err_persists(header, i, j - 1, e);
    }
}

/// Resolve the header row to the positions of the four required columns.
/// Every field is cleaned of whitespace before it is matched, matching is
/// case-sensitive, a repeated required name or a missing one is fatal, and
/// unrecognized names are ignored.
pub fn resolve_columns(header: &Vec<String>) -> (r: Result<ColumnIndex, EngineError>)
    ensures
        r == resolve_spec(header.deep_view()),
{
    let ghost hd = header.deep_view();
    let mut cols = ColumnIndex::new();
    let n = header.len();
    let mut i: usize = 0;
    while i < n
        invariant
            0 <= i <= n,
            n == header@.len(),
            hd == header.deep_view(),
            hd.len() == n,
            resolve_scan(hd, i as int) == Ok::<ColumnIndex, EngineError>(cols),
        decreases n - i,
    {
        let name = strip_field(header[i].as_str());
        proof {
            assert(hd[i as int] == header@[i as int]@);
            assert(name@ == strip_ws_spec(hd[i as int]));
        }
        let ghost prev = cols;
        if chars_eq(&name, "type") {
            match cols.check_duplicate_type() {
                Err(e) => {
                    proof {
                        lemma_scan_err_persists(hd, i as int + 1, n as int, e);
                    }
                    return Err(e);
                },
                Ok(u) => {
                    cols.type_pos = i;
                },
            }
        } else if chars_eq(&name, "client") {
            match cols.check_duplicate_client() {
                Err(e) => {
                    proof {
                        lemma_scan_err_persists(hd, i as int + 1, n as int, e);
                    }
                    return Err(e);
                },
                Ok(u) => {
                    cols.client_pos = i;
                },
            }
        } else if chars_eq(&name, "tx") {
            match cols.check_duplicate_tx() {
                Err(e) => {
                    proof {
                        lemma_scan_err_persists(hd, i as int + 1, n as int, e);
                    }
                    return Err(e);
                },
                Ok(u) => {
                    cols.tx_pos = i;
                },
            }
        } else if chars_eq(&name, "amount") {
            match cols.check_duplicate_amount() {
                Err(e) => {
                    proof {
                        lemma_scan_err_persists(hd, i as int + 1, n as int, e);
                    }
                    return Err(e);
                },
                Ok(u) => {
                    cols.amount_pos = i;
                },
            }
        }
        proof {
            assert(resolve_scan(hd, i as int + 1) == resolve_step(
                prev,
                strip_ws_spec(hd[i as int]),
                i as int,
            ));
        }
        i = i + 1;
    }
    proof {
        assert(i as int == hd.len());
    }
    match cols.check_missing() {
        Err(e) => Err(e),
        Ok(u) => Ok(cols),
    }
}

} // verus!
