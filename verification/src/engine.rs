//! The ledger engine: fold the decoded record stream into a mapping from
//! client id to account, creating accounts lazily, threading the one
//! transaction-id registry through every deposit and withdrawal, and
//! stopping at the first fatal error.

use vstd::prelude::*;
use std::collections::HashMap;
use crate::account::{
    Account, AccountView, Transaction, TransactionIdRegistry, initial_account, spec_update,
};
use crate::columns::{ColumnIndex, resolve_columns, resolve_spec};
use crate::decode::{decode_record, decode_spec};
use crate::errors::EngineError;

verus! {

broadcast use vstd::std_specs::hash::group_hash_axioms;

/// The mathematical view of a whole ledger: each account replaced by its
/// view.
pub open spec fn ledger_view(m: Map<u16, Account>) -> Map<u16, AccountView> {
    m.map_values(|a: Account| a@)
}

proof fn lemma_ledger_view_empty()
    ensures
        ledger_view(Map::empty()) == Map::<u16, AccountView>::empty(),
{
    assert(ledger_view(Map::empty()) =~= Map::<u16, AccountView>::empty());
}

proof fn lemma_ledger_view_insert(m: Map<u16, Account>, c: u16, a: Account)
    ensures
        ledger_view(m.insert(c, a)) == ledger_view(m).insert(c, a@),
{
    assert(ledger_view(m.insert(c, a)) =~= ledger_view(m).insert(c, a@));
}

proof fn lemma_ledger_view_index(m: Map<u16, Account>, c: u16)
    ensures
        ledger_view(m).contains_key(c) == m.contains_key(c),
        m.contains_key(c) ==> ledger_view(m)[c] == m[c]@,
{
}

/// One decoded transaction applied to the ledger: the owning account is
/// looked up or created, then updated.
pub open spec fn spec_apply(ledger: Map<u16, AccountView>, used: Set<u32>, t: Transaction) -> (
    Map<u16, AccountView>,
    Set<u32>,
) {
    let a = if ledger.contains_key(t.client) {
        ledger[t.client]
    } else {
        initial_account(t.client)
    };
    let r = spec_update(a, used, t);
    (ledger.insert(t.client, r.0), r.1)
}

/// The ledger and registry after the first `n` body rows, or the first
/// fatal error among them.
pub open spec fn spec_process_rows(cols: ColumnIndex, rows: Seq<Seq<Seq<char>>>, n: int) -> Result<
    (Map<u16, AccountView>, Set<u32>),
    EngineError,
>
    decreases n,
{
    if n <= 0 {
        Ok((Map::empty(), Set::empty()))
    } else {
        match spec_process_rows(cols, rows, n - 1) {
            Err(e) => Err(e),
            Ok(st) => match decode_spec(rows[n - 1], cols) {
                Err(e) => Err(e),
                Ok(t) => Ok(spec_apply(st.0, st.1, t)),
            },
        }
    }
}

/// A fatal error is final: later rows cannot undo it.
proof fn lemma_rows_err_persists(
    cols: ColumnIndex,
    rows: Seq<Seq<Seq<char>>>,
    i: int,
    j: int,
    e: EngineError,
)
    requires
        0 <= i <= j,
        spec_process_rows(cols, rows, i) == Err::<(Map<u16, AccountView>, Set<u32>), EngineError>(
            e,
        ),
    ensures
        spec_process_rows(cols, rows, j) == Err::<(Map<u16, AccountView>, Set<u32>), EngineError>(
            e,
        ),
    decreases j - i,
{
    if j > i {
        lemma_rows_err_persists(cols, rows, i, j - 1, e);
    }
}

/// The whole run on a sequence of raw rows, header first: the final ledger,
/// or the first fatal error.  An input without rows resolves an empty
/// header, which reports the missing columns.
pub open spec fn spec_process(rows: Seq<Seq<Seq<char>>>) -> Result<
    Map<u16, AccountView>,
    EngineError,
> {
    let header = if rows.len() == 0 {
        Seq::<Seq<char>>::empty()
    } else {
        rows[0]
    };
    match resolve_spec(header) {
        Err(e) => Err(e),
        Ok(cols) => match spec_process_rows(cols, rows.skip(1), rows.len() - 1) {
            Err(e) => Err(e),
            Ok(st) => Ok(st.0),
        },
    }
}

/// Process a stream of raw rows, header row first, into the final mapping
/// from client id to account state, or stop at the first fatal error:
/// missing or duplicated required column, a row too short for the resolved
/// columns, or an unparseable `client` or `tx` field.  Every non-fatal
/// condition only skips its own row.
pub fn process_records(rows: &Vec<Vec<String>>) -> (r: Result<HashMap<u16, Account>, EngineError>)
    ensures
        (r is Ok) == (spec_process(rows.deep_view()) is Ok),
        r matches Ok(m) ==> spec_process(rows.deep_view()) == Ok::<
            Map<u16, AccountView>,
            EngineError,
        >(ledger_view(m@)),
        r matches Err(e) ==> spec_process(rows.deep_view()) == Err::<
            Map<u16, AccountView>,
            EngineError,
        >(e),
{
    let ghost rv = rows.deep_view();
    let n = rows.len();
    if n == 0 {
        let empty_header: Vec<String> = Vec::new();
        proof {
            assert(empty_header.deep_view() =~= Seq::<Seq<char>>::empty());
        }
        match resolve_columns(&empty_header) {
            Err(e) => {
                return Err(e);
            },
            Ok(c) => {
                return Err(EngineError::MissingColumnAmount);
            },
        }
    }
    let cols = match resolve_columns(&rows[0]) {
        Err(e) => {
            proof {
                assert(rv[0] == rows@[0].deep_view());
            }
            return Err(e);
        },
        Ok(c) => c,
    };
    proof {
        assert(rv[0] == rows@[0].deep_view());
        lemma_ledger_view_empty();
    }
    let mut ledger: HashMap<u16, Account> = HashMap::new();
    let mut registry = TransactionIdRegistry::new();
    let mut i: usize = 1;
    while i < n
        invariant
            1 <= i <= n,
            n == rows@.len(),
            rv == rows.deep_view(),
            rv.len() == n,
            resolve_spec(rv[0]) == Ok::<ColumnIndex, EngineError>(cols),
            spec_process_rows(cols, rv.skip(1), i - 1) == Ok::<
                (Map<u16, AccountView>, Set<u32>),
                EngineError,
            >((ledger_view(ledger@), registry@)),
        decreases n - i,
    {
        let row = &rows[i];
        proof {
            assert(row.deep_view() == rv[i as int]);
            assert(rv.skip(1)[i - 1] == rv[i as int]);
        }
        match decode_record(row, &cols) {
            Err(e) => {
                proof {
                    lemma_rows_err_persists(cols, rv.skip(1), i as int, n as int - 1, e);
                }
                return Err(e);
            },
            Ok(t) => {
                let ghost pre_ledger = ledger@;
                let ghost pre_used = registry@;
                let client = t.client;
                let mut acct = match ledger.remove(&client) {
                    Option::Some(a) => a,
                    Option::None => Account::new(client),
                };
                let ghost pre_acct = acct@;
                acct.update(&t, &mut registry);
                let ghost av: Account = acct;
                ledger.insert(client, acct);
                proof {
                    // The exec lookup matches the spec's lookup-or-create.
                    lemma_ledger_view_index(pre_ledger, client);
                    assert(pre_acct == (if ledger_view(pre_ledger).contains_key(client) {
                        ledger_view(pre_ledger)[client]
                    } else {
                        initial_account(client)
                    }));
                    assert(ledger@ =~= pre_ledger.insert(client, av));
                    lemma_ledger_view_insert(pre_ledger, client, av);
                    assert((spec_update(pre_acct, pre_used, t)) == (av@, registry@));
                    assert(spec_apply(ledger_view(pre_ledger), pre_used, t) == (
                        ledger_view(ledger@),
                        registry@,
                    ));
                    assert(spec_process_rows(cols, rv.skip(1), i as int) == Ok::<
                        (Map<u16, AccountView>, Set<u32>),
                        EngineError,
                    >((ledger_view(ledger@), registry@)));
                }
            },
        }
        i = i + 1;
    }
    Ok(ledger)
}

} // verus!
