//! The global guarantees of the ledger: exact books at every reachable
//! state, non-negative held funds, a monotonic lock, replay immunity, the
//! dispute round trip, and overflow safety.
//!
//! The central device is the sum of the currently disputed amounts of a
//! deposit map; the books invariant says that `held` always equals it.

use vstd::prelude::*;
use vstd::set_lib::group_set_properties;
use crate::account::{
    AccountView, Deposit, DepositState, Transaction, TxKind, initial_account, spec_chargeback,
    spec_deposit, spec_dispute, spec_resolve, spec_update, spec_withdrawl,
};
use crate::amount::{FixedPointAmount, fits_units};
use crate::columns::ColumnIndex;
use crate::engine::{spec_apply, spec_process, spec_process_rows};

verus! {

/// The contribution of one recorded deposit to the held funds.
pub open spec fn dispute_weight(d: Deposit) -> int {
    if d.state is Disputed {
        d.amount@
    } else {
        0
    }
}

/// The key-deposit pairs of a deposit map, as a set.
pub open spec fn deposit_pairs(m: Map<u32, Deposit>) -> Set<(u32, Deposit)> {
    m.dom().map(|k: u32| (k, m[k]))
}

/// The fold step when summing dispute weights.
pub open spec fn weight_step() -> spec_fn(int, (u32, Deposit)) -> int {
    |b: int, p: (u32, Deposit)| b + dispute_weight(p.1)
}

/// The sum of the disputed amounts of a deposit map.
pub open spec fn disputed_sum(m: Map<u32, Deposit>) -> int {
    deposit_pairs(m).fold(0, weight_step())
}

proof fn lemma_weight_step_commutative()
    ensures
        vstd::set::fold::is_fun_commutative(weight_step()),
{
}

proof fn lemma_deposit_pairs_membership(m: Map<u32, Deposit>, p: (u32, Deposit))
    ensures
        deposit_pairs(m).contains(p) <==> (m.contains_key(p.0) && m[p.0] == p.1),
{
    if m.contains_key(p.0) && m[p.0] == p.1 {
        assert(m.dom().contains(p.0));
        assert(deposit_pairs(m).contains((p.0, m[p.0])));
    }
}

proof fn lemma_deposit_pairs_finite(m: Map<u32, Deposit>)
    requires
        m.dom().finite(),
    ensures
        deposit_pairs(m).finite(),
{
    m.dom().lemma_map_finite(|k: u32| (k, m[k]));
}

proof fn lemma_disputed_sum_empty()
    ensures
        disputed_sum(Map::empty()) == 0,
{
    assert(deposit_pairs(Map::empty()) =~= Set::<(u32, Deposit)>::empty());
    vstd::set::fold::lemma_fold_empty(0int, weight_step());
}

/// Inserting a fresh key adds exactly its weight to the sum.
proof fn lemma_disputed_sum_insert(m: Map<u32, Deposit>, k: u32, d: Deposit)
    requires
        m.dom().finite(),
        !m.contains_key(k),
    ensures
        disputed_sum(m.insert(k, d)) == disputed_sum(m) + dispute_weight(d),
{
    lemma_weight_step_commutative();
    lemma_deposit_pairs_finite(m);
    assert(deposit_pairs(m.insert(k, d)) =~= deposit_pairs(m).insert((k, d))) by {
        assert forall|p: (u32, Deposit)|
            deposit_pairs(m.insert(k, d)).contains(p)
                == deposit_pairs(m).insert((k, d)).contains(p) by {
            lemma_deposit_pairs_membership(m.insert(k, d), p);
            lemma_deposit_pairs_membership(m, p);
        }
    }
    assert(!deposit_pairs(m).contains((k, d))) by {
        lemma_deposit_pairs_membership(m, (k, d));
    }
    vstd::set::fold::lemma_fold_insert(deposit_pairs(m), 0int, weight_step(), (k, d));
}

/// Overwriting an existing key swaps its old weight for the new one.
proof fn lemma_disputed_sum_update(m: Map<u32, Deposit>, k: u32, d: Deposit)
    requires
        m.dom().finite(),
        m.contains_key(k),
    ensures
        disputed_sum(m.insert(k, d)) == disputed_sum(m) - dispute_weight(m[k]) + dispute_weight(d),
{
    broadcast use group_set_properties;

    let m0 = m.remove(k);
    assert(m0.dom() =~= m.dom().remove(k));
    assert(m0.insert(k, m[k]) =~= m);
    assert(m0.insert(k, d) =~= m.insert(k, d));
    lemma_disputed_sum_insert(m0, k, m[k]);
    lemma_disputed_sum_insert(m0, k, d);
}

/// With every recorded amount non-negative, the sum is non-negative.
proof fn lemma_disputed_sum_nonneg(m: Map<u32, Deposit>)
    requires
        m.dom().finite(),
        forall|k: u32| m.contains_key(k) ==> #[trigger] m[k].amount@ >= 0,
    ensures
        disputed_sum(m) >= 0,
    decreases m.dom().len(),
{
    broadcast use group_set_properties;

    if m.dom() =~= Set::<u32>::empty() {
        assert(m =~= Map::empty());
        lemma_disputed_sum_empty();
    } else {
        let k = m.dom().choose();
        assert(m.dom().contains(k));
        let m0 = m.remove(k);
        assert(m0.dom() =~= m.dom().remove(k));
        assert(m0.insert(k, m[k]) =~= m);
        lemma_disputed_sum_insert(m0, k, m[k]);
        assert forall|j: u32| m0.contains_key(j) implies #[trigger] m0[j].amount@ >= 0 by {
            assert(m0[j] == m[j]);
        }
        lemma_disputed_sum_nonneg(m0);
    }
}

/// The internal invariant of one account: finitely many recorded deposits,
/// exact books, a non-negative amount in every record, and held funds equal
/// to the sum of the currently disputed amounts.
pub open spec fn account_inv(a: AccountView) -> bool {
    &&& a.deposits.dom().finite()
    &&& a.available@ + a.held@ == a.total@
    &&& forall|k: u32| a.deposits.contains_key(k) ==> #[trigger] a.deposits[k].amount@ >= 0
    &&& a.held@ == disputed_sum(a.deposits)
}

/// Every recorded deposit id has been consumed by the registry.
pub open spec fn account_registered(a: AccountView, used: Set<u32>) -> bool {
    forall|k: u32| #[trigger] a.deposits.contains_key(k) ==> used.contains(k)
}

/// Held funds are never negative in a state satisfying the invariant.
pub proof fn lemma_held_nonneg(a: AccountView)
    requires
        account_inv(a),
    ensures
        a.held@ >= 0,
{
    lemma_disputed_sum_nonneg(a.deposits);
}

pub proof fn lemma_initial_account_inv(client: u16, used: Set<u32>)
    ensures
        account_inv(initial_account(client)),
        account_registered(initial_account(client), used),
{
    lemma_disputed_sum_empty();
}

proof fn lemma_deposit_preserves(
    a: AccountView,
    used: Set<u32>,
    tx: u32,
    amount: Option<FixedPointAmount>,
)
    requires
        account_inv(a),
        account_registered(a, used),
    ensures
        account_inv(spec_deposit(a, used, tx, amount).0),
        account_registered(spec_deposit(a, used, tx, amount).0, spec_deposit(a, used, tx, amount).1),
        used.subset_of(spec_deposit(a, used, tx, amount).1),
        spec_deposit(a, used, tx, amount).0.locked == a.locked,
        spec_deposit(a, used, tx, amount).0.client == a.client,
{
    let r = spec_deposit(a, used, tx, amount);
    if !used.contains(tx) && amount is Some {
        let amt = amount->0;
        if !a.locked && amt@ >= 0 && fits_units(a.total@ + amt@) && fits_units(
            a.available@ + amt@,
        ) {
            let nd = Deposit { amount: amt, state: DepositState::NotDisputed };
            assert(!a.deposits.contains_key(tx));
            lemma_disputed_sum_insert(a.deposits, tx, nd);
            assert(r.0.deposits == a.deposits.insert(tx, nd));
            assert forall|k: u32| r.0.deposits.contains_key(k) implies #[trigger] r.0.deposits[k].amount@
                >= 0 by {
                if k != tx {
                    assert(a.deposits.contains_key(k));
                    assert(a.deposits[k].amount@ >= 0);
                    assert(r.0.deposits[k] == a.deposits[k]);
                } else {
                    assert(r.0.deposits[k] == nd);
                }
            }
            assert forall|k: u32| #[trigger] r.0.deposits.contains_key(k) implies r.1.contains(
                k,
            ) by {
                if k != tx {
                    assert(a.deposits.contains_key(k));
                }
            }
        }
    }
}

proof fn lemma_withdrawl_preserves(
    a: AccountView,
    used: Set<u32>,
    tx: u32,
    amount: Option<FixedPointAmount>,
)
    requires
        account_inv(a),
        account_registered(a, used),
    ensures
        account_inv(spec_withdrawl(a, used, tx, amount).0),
        account_registered(
            spec_withdrawl(a, used, tx, amount).0,
            spec_withdrawl(a, used, tx, amount).1,
        ),
        used.subset_of(spec_withdrawl(a, used, tx, amount).1),
        spec_withdrawl(a, used, tx, amount).0.locked == a.locked,
        spec_withdrawl(a, used, tx, amount).0.client == a.client,
{
}

proof fn lemma_dispute_preserves(a: AccountView, used: Set<u32>, tx: u32)
    requires
        account_inv(a),
        account_registered(a, used),
    ensures
        account_inv(spec_dispute(a, tx)),
        account_registered(spec_dispute(a, tx), used),
        spec_dispute(a, tx).locked == a.locked,
        spec_dispute(a, tx).client == a.client,
{
    if a.deposits.contains_key(tx) {
        let d = a.deposits[tx];
        if d.state is NotDisputed && fits_units(a.available@ - d.amount@) && fits_units(
            a.held@ + d.amount@,
        ) {
            lemma_disputed_sum_update(
                a.deposits,
                tx,
                Deposit { amount: d.amount, state: DepositState::Disputed },
            );
        }
    }
}

proof fn lemma_resolve_preserves(a: AccountView, used: Set<u32>, tx: u32)
    requires
        account_inv(a),
        account_registered(a, used),
    ensures
        account_inv(spec_resolve(a, tx)),
        account_registered(spec_resolve(a, tx), used),
        spec_resolve(a, tx).locked == a.locked,
        spec_resolve(a, tx).client == a.client,
{
    if a.deposits.contains_key(tx) {
        let d = a.deposits[tx];
        if d.state is Disputed && fits_units(a.available@ + d.amount@) && fits_units(
            a.held@ - d.amount@,
        ) {
            let nd = Deposit { amount: d.amount, state: DepositState::NotDisputed };
            lemma_disputed_sum_update(a.deposits, tx, nd);
            let a2 = spec_resolve(a, tx);
            assert(a2.deposits == a.deposits.insert(tx, nd));
            assert forall|k: u32| a2.deposits.contains_key(k) implies #[trigger] a2.deposits[k].amount@
                >= 0 by {
                if k != tx {
                    assert(a.deposits.contains_key(k));
                    assert(a.deposits[k].amount@ >= 0);
                    assert(a2.deposits[k] == a.deposits[k]);
                } else {
                    assert(a2.deposits[k] == nd);
                    assert(a.deposits[tx].amount@ >= 0);
                }
            }
            assert forall|k: u32| #[trigger] a2.deposits.contains_key(k) implies used.contains(
                k,
            ) by {
                assert(a.deposits.contains_key(k));
            }
        }
    }
}

proof fn lemma_chargeback_preserves(a: AccountView, used: Set<u32>, tx: u32)
    requires
        account_inv(a),
        account_registered(a, used),
    ensures
        account_inv(spec_chargeback(a, tx)),
        account_registered(spec_chargeback(a, tx), used),
        a.locked ==> spec_chargeback(a, tx).locked,
        spec_chargeback(a, tx).client == a.client,
{
    if a.deposits.contains_key(tx) {
        let d = a.deposits[tx];
        if d.state is Disputed && fits_units(a.held@ - d.amount@) && fits_units(
            a.total@ - d.amount@,
        ) {
            let nd = Deposit { amount: d.amount, state: DepositState::Chargebacked };
            lemma_disputed_sum_update(a.deposits, tx, nd);
            let a2 = spec_chargeback(a, tx);
            assert(a2.deposits == a.deposits.insert(tx, nd));
            assert forall|k: u32| a2.deposits.contains_key(k) implies #[trigger] a2.deposits[k].amount@
                >= 0 by {
                if k != tx {
                    assert(a.deposits.contains_key(k));
                    assert(a.deposits[k].amount@ >= 0);
                    assert(a2.deposits[k] == a.deposits[k]);
                } else {
                    assert(a2.deposits[k] == nd);
                    assert(a.deposits[tx].amount@ >= 0);
                }
            }
            assert forall|k: u32| #[trigger] a2.deposits.contains_key(k) implies used.contains(
                k,
            ) by {
                assert(a.deposits.contains_key(k));
            }
        }
    }
}

/// One transaction preserves the account invariant and the registry
/// coupling, only ever grows the registry, and never clears the lock.
pub proof fn lemma_update_preserves(a: AccountView, used: Set<u32>, t: Transaction)
    requires
        account_inv(a),
        account_registered(a, used),
    ensures
        account_inv(spec_update(a, used, t).0),
        account_registered(spec_update(a, used, t).0, spec_update(a, used, t).1),
        used.subset_of(spec_update(a, used, t).1),
        a.locked ==> spec_update(a, used, t).0.locked,
        spec_update(a, used, t).0.client == a.client,
{
    match t.kind {
        TxKind::Deposit => lemma_deposit_preserves(a, used, t.tx, t.amount),
        TxKind::Withdrawal => lemma_withdrawl_preserves(a, used, t.tx, t.amount),
        TxKind::Dispute => lemma_dispute_preserves(a, used, t.tx),
        TxKind::Resolve => lemma_resolve_preserves(a, used, t.tx),
        TxKind::Chargeback => lemma_chargeback_preserves(a, used, t.tx),
        TxKind::Unknown => {},
    }
}

/// The whole-ledger invariant: every account is internally consistent, its
/// deposit ids are registered, and it sits under its own client id.
pub open spec fn ledger_inv(ledger: Map<u16, AccountView>, used: Set<u32>) -> bool {
    forall|c: u16|
        ledger.contains_key(c) ==> account_inv(#[trigger] ledger[c]) && account_registered(
            ledger[c],
            used,
        ) && ledger[c].client == c
}

proof fn lemma_apply_preserves(ledger: Map<u16, AccountView>, used: Set<u32>, t: Transaction)
    requires
        ledger_inv(ledger, used),
    ensures
        ledger_inv(spec_apply(ledger, used, t).0, spec_apply(ledger, used, t).1),
{
    let a = if ledger.contains_key(t.client) {
        ledger[t.client]
    } else {
        initial_account(t.client)
    };
    lemma_initial_account_inv(t.client, used);
    lemma_update_preserves(a, used, t);
}

/// Invariant of the fold: after any prefix of the body rows, every account
/// in the ledger satisfies the books invariant and the registry coupling.
pub proof fn lemma_prefix_invariant(cols: ColumnIndex, rows: Seq<Seq<Seq<char>>>, n: int)
    ensures
        spec_process_rows(cols, rows, n) matches Ok(st) ==> ledger_inv(st.0, st.1),
    decreases n,
{
    if n > 0 {
        lemma_prefix_invariant(cols, rows, n - 1);
        match spec_process_rows(cols, rows, n - 1) {
            Ok(st) => {
                match crate::decode::decode_spec(rows[n - 1], cols) {
                    Ok(t) => {
                        lemma_apply_preserves(st.0, st.1, t);
                    },
                    Err(e) => {},
                }
            },
            Err(e) => {},
        }
    }
}

/// After processing any prefix of the input, every account's books balance
/// exactly: available + held == total.
pub proof fn lemma_books_balance(cols: ColumnIndex, rows: Seq<Seq<Seq<char>>>, n: int, c: u16)
    ensures
        spec_process_rows(cols, rows, n) matches Ok(st) ==> (st.0.contains_key(c)
            ==> st.0[c].available@ + st.0[c].held@ == st.0[c].total@),
{
    lemma_prefix_invariant(cols, rows, n);
}

/// After processing any prefix of the input, no account's held funds are
/// negative.
pub proof fn lemma_held_never_negative(cols: ColumnIndex, rows: Seq<Seq<Seq<char>>>, n: int, c: u16)
    ensures
        spec_process_rows(cols, rows, n) matches Ok(st) ==> (st.0.contains_key(c)
            ==> st.0[c].held@ >= 0),
{
    lemma_prefix_invariant(cols, rows, n);
    match spec_process_rows(cols, rows, n) {
        Ok(st) => {
            if st.0.contains_key(c) {
                lemma_held_nonneg(st.0[c]);
            }
        },
        Err(e) => {},
    }
}

/// The invariant at the whole run's result: every account of the final
/// ledger has exact books, non-negative held funds, and sits under its own
/// client id.
pub proof fn lemma_process_invariant(rows: Seq<Seq<Seq<char>>>, c: u16)
    ensures
        spec_process(rows) matches Ok(ledger) ==> (ledger.contains_key(c) ==> {
            &&& ledger[c].available@ + ledger[c].held@ == ledger[c].total@
            &&& ledger[c].held@ >= 0
            &&& ledger[c].client == c
        }),
{
    let header = if rows.len() == 0 {
        Seq::<Seq<char>>::empty()
    } else {
        rows[0]
    };
    match crate::columns::resolve_spec(header) {
        Ok(cols) => {
            lemma_books_balance(cols, rows.skip(1), rows.len() - 1, c);
            lemma_held_never_negative(cols, rows.skip(1), rows.len() - 1, c);
            lemma_prefix_invariant(cols, rows.skip(1), rows.len() - 1);
        },
        Err(e) => {},
    }
}

/// The lock is monotonic: no transaction ever clears it.
pub proof fn lemma_locked_monotonic(a: AccountView, used: Set<u32>, t: Transaction)
    requires
        a.locked,
    ensures
        spec_update(a, used, t).0.locked,
{
}

/// Once an account is locked after some prefix of the input, it stays
/// locked after every longer prefix.
pub proof fn lemma_locked_stays(cols: ColumnIndex, rows: Seq<Seq<Seq<char>>>, n: int, m: int, c: u16)
    requires
        0 <= n <= m,
    ensures
        spec_process_rows(cols, rows, n) matches Ok(s1) ==> (spec_process_rows(cols, rows, m)
            matches Ok(s2) ==> (s1.0.contains_key(c) && s1.0[c].locked ==> s2.0.contains_key(c)
            && s2.0[c].locked)),
    decreases m - n,
{
    if m > n {
        lemma_locked_stays(cols, rows, n, m - 1, c);
        match spec_process_rows(cols, rows, m - 1) {
            Ok(st) => {
                match crate::decode::decode_spec(rows[m - 1], cols) {
                    Ok(t) => {
                        if st.0.contains_key(c) && st.0[c].locked {
                            if t.client == c {
                                lemma_locked_monotonic(st.0[c], st.1, t);
                            }
                        }
                    },
                    Err(e) => {},
                }
            },
            Err(e) => {},
        }
    }
}

/// Replaying an already consumed deposit or withdrawal id changes nothing:
/// neither the account nor the registry moves.
pub proof fn lemma_replay_no_change(a: AccountView, used: Set<u32>, t: Transaction)
    requires
        used.contains(t.tx),
        t.kind is Deposit || t.kind is Withdrawal,
    ensures
        spec_update(a, used, t) == (a, used),
{
}

/// Applying the same deposit or withdrawal twice in a row equals applying
/// it once: the second application finds its id consumed.
pub proof fn lemma_replay_idempotent(a: AccountView, used: Set<u32>, t: Transaction)
    requires
        t.kind is Deposit || t.kind is Withdrawal,
    ensures
        spec_update(spec_update(a, used, t).0, spec_update(a, used, t).1, t) == spec_update(
            a,
            used,
            t,
        ),
{
    let r = spec_update(a, used, t);
    assert(r.1.contains(t.tx));
    lemma_replay_no_change(r.0, r.1, t);
}

/// A dispute followed by a resolve of the same id restores available and
/// held funds to their pre-dispute values exactly, and the whole account
/// state with them.
pub proof fn lemma_dispute_resolve_roundtrip(a: AccountView, tx: u32)
    requires
        a.deposits.contains_key(tx),
        a.deposits[tx].state is NotDisputed,
        fits_units(a.available@ - a.deposits[tx].amount@),
        fits_units(a.held@ + a.deposits[tx].amount@),
    ensures
        spec_resolve(spec_dispute(a, tx), tx).available == a.available,
        spec_resolve(spec_dispute(a, tx), tx).held == a.held,
        spec_resolve(spec_dispute(a, tx), tx) == a,
{
    let a1 = spec_dispute(a, tx);
    let d = a.deposits[tx];
    assert(a1.deposits[tx] == (Deposit { amount: d.amount, state: DepositState::Disputed }));
    assert(spec_resolve(a1, tx).deposits =~= a.deposits);
}

/// A deposit whose amount would overflow the running total leaves
/// available, held, total and the deposit map completely unchanged.
pub proof fn lemma_overflow_no_change(
    a: AccountView,
    used: Set<u32>,
    tx: u32,
    amt: FixedPointAmount,
)
    requires
        !fits_units(a.total@ + amt@),
    ensures
        spec_deposit(a, used, tx, Some(amt)).0 == a,
{
}

} // verus!
