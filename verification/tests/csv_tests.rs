use payment_engine::csvio::process_csv;
use payment_engine::errors::EngineError;

#[test]
fn csv_bytes_end_to_end() {
    let data = b"type,client,tx,amount\n\
                 deposit,1,1,1.0\n\
                 deposit,2,2,2.0\n\
                 deposit,1,3,2.0\n\
                 withdrawal,1,4,1.5\n\
                 withdrawal,2,5,3.0\n";
    let accounts = process_csv(data).unwrap();
    let a = accounts.get(&1).unwrap();
    assert_eq!(a.available.units, 15000);
    assert_eq!(a.total.units, 15000);
    assert!(!a.locked);
    let b = accounts.get(&2).unwrap();
    assert_eq!(b.available.units, 20000);
}

#[test]
fn csv_fields_are_really_split() {
    // Four separate fields must reach the decoder; a wrapper handing the
    // line through unsplit could not produce this ledger.
    let data = b"type,client,tx,amount\ndeposit,7,42,0.1\n";
    let accounts = process_csv(data).unwrap();
    let a = accounts.get(&7).unwrap();
    assert_eq!(a.available.units, 1000);
    assert_eq!(a.deposited.get(&42).unwrap().amount.units, 1000);
}

#[test]
fn csv_dispute_cycle() {
    let data = b"type,client,tx,amount\n\
                 deposit,1,1,1.0\n\
                 dispute,1,1,\n\
                 chargeback,1,1,\n";
    let accounts = process_csv(data).unwrap();
    let a = accounts.get(&1).unwrap();
    assert_eq!(a.available.units, 0);
    assert_eq!(a.held.units, 0);
    assert_eq!(a.total.units, 0);
    assert!(a.locked);
}

#[test]
fn csv_quoted_fields_and_spaces() {
    let data = b"type, client, tx, amount\n\"deposit\", 10, 100,\" 1.0 \"\n";
    let accounts = process_csv(data).unwrap();
    let a = accounts.get(&10).unwrap();
    assert_eq!(a.available.units, 10000);
}

#[test]
fn csv_empty_input_misses_columns() {
    let r = process_csv(b"");
    assert!(matches!(r, Err(EngineError::MissingColumnAmount)));
}

#[test]
fn csv_ragged_row_is_a_framing_error() {
    let data = b"type,client,tx,amount\ndeposit,1,1\n";
    let r = process_csv(data);
    assert!(matches!(r, Err(EngineError::CsvError(_))));
}

#[test]
fn csv_invalid_utf8_is_a_framing_error() {
    let data = b"type,client,tx,amount\ndeposit,1,1,\xff\xfe\n";
    let r = process_csv(&data[..]);
    assert!(matches!(r, Err(EngineError::CsvError(_))));
}

#[test]
fn csv_bad_client_field_is_fatal() {
    let data = b"type,client,tx,amount\ndeposit,oops,1,1.0\n";
    let r = process_csv(data);
    assert!(matches!(r, Err(EngineError::ParseIntError)));
}
