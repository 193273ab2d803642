//! Record decoding: turn one raw delimited row plus the resolved column
//! positions into a validated [`Transaction`].
//!
//! Every field is cleaned of all whitespace, inner whitespace included,
//! before it is read.  An unparseable `client` or `tx` field is fatal; an
//! unrecognized `type` yields `TxKind::Unknown`, to be rejected per row; an
//! unparseable `amount` degrades to "no amount".

use vstd::prelude::*;
use crate::account::{Transaction, TxKind};
use crate::amount::FixedPointAmount;
use crate::columns::ColumnIndex;
use crate::errors::EngineError;
use crate::text::{
    chars_eq, parse_amount, parse_amount_spec, parse_uint, parse_uint_spec, strip_field,
    strip_ws_spec,
};

verus! {

/// The transaction kind named by a cleaned `type` field; matching is
/// case-sensitive and anything unrecognized is `Unknown`.
pub open spec fn kind_of(name: Seq<char>) -> TxKind {
    if name == "deposit"@ {
        TxKind::Deposit
    } else if name == "withdrawal"@ {
        TxKind::Withdrawal
    } else if name == "dispute"@ {
        TxKind::Dispute
    } else if name == "resolve"@ {
        TxKind::Resolve
    } else if name == "chargeback"@ {
        TxKind::Chargeback
    } else {
        TxKind::Unknown
    }
}

/// The outcome of decoding one raw row under the resolved columns: the
/// validated transaction, or the fatal error for a structurally bad row.
pub open spec fn decode_spec(row: Seq<Seq<char>>, c: ColumnIndex) -> Result<
    Transaction,
    EngineError,
> {
    if !(c.type_pos < row.len() && c.client_pos < row.len() && c.tx_pos < row.len()
        && c.amount_pos < row.len()) {
        Err(EngineError::MalformedRow)
    } else {
        let kind = kind_of(strip_ws_spec(row[c.type_pos as int]));
        let client = parse_uint_spec(strip_ws_spec(row[c.client_pos as int]), u16::MAX as int);
        let tx = parse_uint_spec(strip_ws_spec(row[c.tx_pos as int]), u32::MAX as int);
        let amount = parse_amount_spec(strip_ws_spec(row[c.amount_pos as int]));
        match (client, tx) {
            (Some(cv), Some(tv)) => Ok(
                Transaction { kind, client: cv as u16, tx: tv as u32, amount },
            ),
            _ => Err(EngineError::ParseIntError),
        }
    }
}

/// Decode one raw row into a transaction.  Fatal when the row is too short
/// for the resolved columns or when `client` or `tx` does not parse as its
/// unsigned width.
pub fn decode_record(row: &Vec<String>, cols: &ColumnIndex) -> (r: Result<
    Transaction,
    EngineError,
>)
    ensures
        r == decode_spec(row.deep_view(), *cols),
{
    let ghost rd = row.deep_view();
    let n = row.len();
    if !(cols.type_pos < n && cols.client_pos < n && cols.tx_pos < n && cols.amount_pos < n) {
        return Err(EngineError::MalformedRow);
    }
    proof {
        assert(rd[cols.type_pos as int] == row@[cols.type_pos as int]@);
        assert(rd[cols.client_pos as int] == row@[cols.client_pos as int]@);
        assert(rd[cols.tx_pos as int] == row@[cols.tx_pos as int]@);
        assert(rd[cols.amount_pos as int] == row@[cols.amount_pos as int]@);
    }
    let tfield = strip_field(row[cols.type_pos].as_str());
    let kind = if chars_eq(&tfield, "deposit") {
        TxKind::Deposit
    } else if chars_eq(&tfield, "withdrawal") {
        TxKind::Withdrawal
    } else if chars_eq(&tfield, "dispute") {
        TxKind::Dispute
    } else if chars_eq(&tfield, "resolve") {
        TxKind::Resolve
    } else if chars_eq(&tfield, "chargeback") {
        TxKind::Chargeback
    } else {
        TxKind::Unknown
    };
    let cfield = strip_field(row[cols.client_pos].as_str());
    let client: u16 = match parse_uint(&cfield, u16::MAX as u64) {
        Option::Some(v) => v as u16,
        Option::None => {
            return Err(EngineError::ParseIntError);
        },
    };
    let xfield = strip_field(row[cols.tx_pos].as_str());
    let tx: u32 = match parse_uint(&xfield, u32::MAX as u64) {
        Option::Some(v) => v as u32,
        Option::None => {
            return Err(EngineError::ParseIntError);
        },
    };
    let afield = strip_field(row[cols.amount_pos].as_str());
    let amount: Option<FixedPointAmount> = parse_amount(&afield);
    Ok(Transaction { kind, client, tx, amount })
}

} // verus!
