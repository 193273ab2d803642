use payment_engine::account::TxKind;
use payment_engine::columns::{ColumnIndex, resolve_columns};
use payment_engine::decode::decode_record;
use payment_engine::errors::EngineError;
use payment_engine::text::{parse_uint, strip_field};

fn chars(s: &str) -> Vec<char> {
    let mut v: Vec<char> = Vec::new();
    for c in s.chars() {
        v.push(c);
    }
    v
}

fn row(fields: &[&str]) -> Vec<String> {
    let mut v: Vec<String> = Vec::new();
    for f in fields {
        v.push(f.to_string());
    }
    v
}

#[test]
fn strip_removes_all_whitespace() {
    assert_eq!(strip_field(" 1 . 0 "), chars("1.0"));
    assert_eq!(strip_field("\tdepo sit\n"), chars("deposit"));
    assert_eq!(strip_field("   "), chars(""));
    assert_eq!(strip_field("abc"), chars("abc"));
}

#[test]
fn parse_uint_bounds() {
    assert_eq!(parse_uint(&chars("0"), u16::MAX as u64), Some(0));
    assert_eq!(parse_uint(&chars("65535"), u16::MAX as u64), Some(65535));
    assert_eq!(parse_uint(&chars("65536"), u16::MAX as u64), None);
    assert_eq!(parse_uint(&chars("+42"), u16::MAX as u64), Some(42));
    assert_eq!(parse_uint(&chars(""), u16::MAX as u64), None);
    assert_eq!(parse_uint(&chars("+"), u16::MAX as u64), None);
    assert_eq!(parse_uint(&chars("1x"), u16::MAX as u64), None);
    assert_eq!(parse_uint(&chars("-1"), u16::MAX as u64), None);
    assert_eq!(parse_uint(&chars("4294967295"), u32::MAX as u64), Some(4294967295));
    assert_eq!(parse_uint(&chars("4294967296"), u32::MAX as u64), None);
    assert_eq!(parse_uint(&chars("999999999999999999999"), u32::MAX as u64), None);
}

#[test]
fn columns_resolve_in_any_order() {
    let cols = resolve_columns(&row(&["amount", "tx", "client", "type"])).unwrap();
    assert_eq!(cols.amount_pos, 0);
    assert_eq!(cols.tx_pos, 1);
    assert_eq!(cols.client_pos, 2);
    assert_eq!(cols.type_pos, 3);
}

#[test]
fn columns_tolerate_unrecognized_names() {
    let cols = resolve_columns(&row(&["type", "client", "note", "tx", "amount"])).unwrap();
    assert_eq!(cols.type_pos, 0);
    assert_eq!(cols.client_pos, 1);
    assert_eq!(cols.tx_pos, 3);
    assert_eq!(cols.amount_pos, 4);
}

#[test]
fn columns_missing_is_fatal() {
    let r = resolve_columns(&row(&["type", "client", "tx"]));
    assert!(matches!(r, Err(EngineError::MissingColumnAmount)));
    let r = resolve_columns(&row(&["type", "client", "amount"]));
    assert!(matches!(r, Err(EngineError::MissingColumnTx)));
    let r = resolve_columns(&row(&["type", "tx", "amount"]));
    assert!(matches!(r, Err(EngineError::MissingColumnClient)));
    let r = resolve_columns(&row(&["client", "tx", "amount"]));
    assert!(matches!(r, Err(EngineError::MissingColumnType)));
    let r = resolve_columns(&row(&[]));
    assert!(matches!(r, Err(EngineError::MissingColumnAmount)));
}

#[test]
fn columns_duplicate_is_fatal() {
    let r = resolve_columns(&row(&["type", "client", "tx", "amount", "amount"]));
    assert!(matches!(r, Err(EngineError::DuplicateColumnAmount)));
    let r = resolve_columns(&row(&["type", "type", "client", "tx", "amount"]));
    assert!(matches!(r, Err(EngineError::DuplicateColumnType)));
    let r = resolve_columns(&row(&["client", "tx", "tx", "amount"]));
    assert!(matches!(r, Err(EngineError::DuplicateColumnTx)));
    let r = resolve_columns(&row(&["client", "client", "tx", "amount"]));
    assert!(matches!(r, Err(EngineError::DuplicateColumnClient)));
}

#[test]
fn columns_header_names_are_cleaned() {
    let cols = resolve_columns(&row(&[" ty pe ", "  client", "tx  ", " amount "])).unwrap();
    assert_eq!(cols.type_pos, 0);
    assert_eq!(cols.client_pos, 1);
}

#[test]
fn columns_matching_is_case_sensitive() {
    let r = resolve_columns(&row(&["Type", "client", "tx", "amount"]));
    assert!(matches!(r, Err(EngineError::MissingColumnType)));
}

#[test]
fn column_index_checks() {
    let fresh = ColumnIndex::new();
    assert!(matches!(fresh.check_missing(), Err(EngineError::MissingColumnAmount)));
    assert!(fresh.check_duplicate_amount().is_ok());
    assert!(fresh.check_duplicate_tx().is_ok());
    assert!(fresh.check_duplicate_client().is_ok());
    assert!(fresh.check_duplicate_type().is_ok());
    let full = ColumnIndex { type_pos: 0, client_pos: 1, tx_pos: 2, amount_pos: 3 };
    assert!(full.check_missing().is_ok());
    assert!(matches!(full.check_duplicate_amount(), Err(EngineError::DuplicateColumnAmount)));
    assert!(matches!(full.check_duplicate_tx(), Err(EngineError::DuplicateColumnTx)));
    assert!(matches!(full.check_duplicate_client(), Err(EngineError::DuplicateColumnClient)));
    assert!(matches!(full.check_duplicate_type(), Err(EngineError::DuplicateColumnType)));
}

#[test]
fn decode_reads_fields_through_columns() {
    let cols = resolve_columns(&row(&["type", "client", "tx", "amount"])).unwrap();
    let t = decode_record(&row(&["deposit", "7", "42", "1.5"]), &cols).unwrap();
    assert_eq!(t.kind, TxKind::Deposit);
    assert_eq!(t.client, 7);
    assert_eq!(t.tx, 42);
    assert_eq!(t.amount.unwrap().units, 15000);
}

#[test]
fn decode_recognizes_every_kind() {
    let cols = resolve_columns(&row(&["type", "client", "tx", "amount"])).unwrap();
    let kinds = [
        ("deposit", TxKind::Deposit),
        ("withdrawal", TxKind::Withdrawal),
        ("dispute", TxKind::Dispute),
        ("resolve", TxKind::Resolve),
        ("chargeback", TxKind::Chargeback),
        ("transfer", TxKind::Unknown),
        ("", TxKind::Unknown),
        ("Deposit", TxKind::Unknown),
    ];
    for (name, kind) in kinds {
        let t = decode_record(&row(&[name, "1", "1", ""]), &cols).unwrap();
        assert_eq!(t.kind, kind);
    }
}

#[test]
fn decode_bad_ids_are_fatal() {
    let cols = resolve_columns(&row(&["type", "client", "tx", "amount"])).unwrap();
    let r = decode_record(&row(&["deposit", "abc", "1", "1.0"]), &cols);
    assert!(matches!(r, Err(EngineError::ParseIntError)));
    let r = decode_record(&row(&["deposit", "1", "99999999999", "1.0"]), &cols);
    assert!(matches!(r, Err(EngineError::ParseIntError)));
    let r = decode_record(&row(&["deposit", "65536", "1", "1.0"]), &cols);
    assert!(matches!(r, Err(EngineError::ParseIntError)));
}

#[test]
fn decode_bad_amount_degrades_to_none() {
    let cols = resolve_columns(&row(&["type", "client", "tx", "amount"])).unwrap();
    let t = decode_record(&row(&["deposit", "1", "1", "x1"]), &cols).unwrap();
    assert!(t.amount.is_none());
    let t = decode_record(&row(&["dispute", "1", "1", ""]), &cols).unwrap();
    assert!(t.amount.is_none());
}

#[test]
fn decode_short_row_is_fatal() {
    let cols = resolve_columns(&row(&["type", "client", "tx", "amount"])).unwrap();
    let r = decode_record(&row(&["deposit", "1", "1"]), &cols);
    assert!(matches!(r, Err(EngineError::MalformedRow)));
}

#[test]
fn decode_cleans_inner_whitespace() {
    let cols = resolve_columns(&row(&["type", "client", "tx", "amount"])).unwrap();
    let t = decode_record(&row(&[" depo sit ", " 1 0 ", " 10 0 ", " 1 . 0 "]), &cols).unwrap();
    assert_eq!(t.kind, TxKind::Deposit);
    assert_eq!(t.client, 10);
    assert_eq!(t.tx, 100);
    assert_eq!(t.amount.unwrap().units, 10000);
}
