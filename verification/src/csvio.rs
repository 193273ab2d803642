//! The byte-level entry point: raw CSV bytes are split into rows by the
//! `csv` crate behind one trusted wrapper, and the verified engine folds the
//! rows into the ledger.

use vstd::prelude::*;
use std::collections::HashMap;
use crate::account::{Account, AccountView};
use crate::engine::{ledger_view, process_records, spec_process};
use crate::errors::EngineError;

verus! {

/// The rows that CSV framing yields on `data`: every field one character
/// sequence, the header row included; `None` when the framing or encoding
/// is malformed.  The outcome is a function of the bytes alone.
pub uninterp spec fn csv_rows_of(data: Seq<u8>) -> Option<Seq<Seq<Seq<char>>>>;

/// Relies on csv::ReaderBuilder and csv::Reader::records: splits the byte
/// buffer into rows of fields under CSV framing, the first row included and
/// no row treated as a header, or reports the first framing or encoding
/// error.
#[verifier::external_body]
fn csv_split(data: &[u8]) -> (r: Result<Vec<Vec<String>>, csv::Error>)
    ensures
        match r {
            Ok(rows) => csv_rows_of(data@) == Some(rows.deep_view()),
            Err(e) => csv_rows_of(data@) is None,
        },
{
    let mut reader = csv::ReaderBuilder::new().has_headers(false).from_reader(data);
    let mut rows: Vec<Vec<String>> = Vec::new();
    for record in reader.records() {
        let record = record?;
        let mut fields: Vec<String> = Vec::new();
        for f in record.iter() {
            fields.push(f.to_string());
        }
        rows.push(fields);
    }
    Ok(rows)
}

/// Process one raw CSV byte stream into the final mapping from client id to
/// account state.  A framing or encoding fault of the byte stream is fatal,
/// as is every fatal error of the row-level run.
pub fn process_csv(data: &[u8]) -> (r: Result<HashMap<u16, Account>, EngineError>)
    ensures
        csv_rows_of(data@) is None ==> (r matches Err(e) && e is CsvError),
        csv_rows_of(data@) matches Some(rows) ==> {
            &&& (r is Ok) == (spec_process(rows) is Ok)
            &&& (r matches Ok(m) ==> spec_process(rows) == Ok::<
                Map<u16, AccountView>,
                EngineError,
            >(ledger_view(m@)))
            &&& (r matches Err(e) ==> spec_process(rows) == Err::<
                Map<u16, AccountView>,
                EngineError,
            >(e))
        },
{
    match csv_split(data) {
        Err(e) => Err(EngineError::CsvError(e)),
        Ok(rows) => process_records(&rows),
    }
}

} // verus!
