//! The per-account ledger state machine: balances, the lock flag, the
//! recorded deposits with their dispute lifecycle, and the run-wide registry
//! of consumed transaction ids.
//!
//! Every operation is specified by a pure transition function on the
//! account's mathematical view; the executable methods are proved to follow
//! those transitions exactly.

use vstd::prelude::*;
use std::collections::{HashMap, HashSet};
use crate::amount::{FixedPointAmount, amount_of_units, fits_units};

verus! {

broadcast use vstd::std_specs::hash::group_hash_axioms;

/// The kind of one input row.
#[derive(Clone, Copy, Debug, PartialEq, Eq, Structural)]
pub enum TxKind {
    Deposit,
    Withdrawal,
    Dispute,
    Resolve,
    Chargeback,
    Unknown,
}

/// One decoded input row.  `amount` is `None` when the field was blank or
/// did not parse; absence is business data, not an error.
#[derive(Clone, Copy, Debug, PartialEq, Eq)]
pub struct Transaction {
    pub kind: TxKind,
    pub client: u16,
    pub tx: u32,
    pub amount: Option<FixedPointAmount>,
}

/// The dispute lifecycle of a recorded deposit.  `Chargebacked` is
/// terminal; a resolved dispute returns to `NotDisputed` and may be
/// disputed again.
#[derive(Clone, Copy, Debug, PartialEq, Eq, Structural)]
pub enum DepositState {
    NotDisputed,
    Disputed,
    Chargebacked,
}

/// A recorded deposit: its canonical amount, immutable once created, and
/// its dispute state.
#[derive(Clone, Copy, Debug, PartialEq, Eq, Structural)]
pub struct Deposit {
    pub amount: FixedPointAmount,
    pub state: DepositState,
}

impl Deposit {
    /// A fresh deposit record, not under dispute.
    pub fn new(deposited_amount: FixedPointAmount) -> (r: Self)
        ensures
            r == (Deposit { amount: deposited_amount, state: DepositState::NotDisputed }),
    {
        Deposit { amount: deposited_amount, state: DepositState::NotDisputed }
    }
}

/// The run-wide set of transaction ids already consumed by a deposit or a
/// withdrawal.  Ids form one global namespace across all clients.
pub struct TransactionIdRegistry {
    pub used: HashSet<u32>,
}

impl View for TransactionIdRegistry {
    type V = Set<u32>;

    open spec fn view(&self) -> Set<u32> {
        self.used@
    }
}

impl TransactionIdRegistry {
    /// An empty registry: no id consumed yet.
    pub fn new() -> (r: Self)
        ensures
            r@ == Set::<u32>::empty(),
    {
        TransactionIdRegistry { used: HashSet::new() }
    }

    /// Record `tx` as consumed.  Returns `true` when it was fresh; `false`
    /// means the caller must reject the transaction as a replay.
    pub fn try_consume(&mut self, tx: u32) -> (r: bool)
        ensures
            r == !old(self)@.contains(tx),
            final(self)@ == old(self)@.insert(tx),
    {
        self.used.insert(tx)
    }
}

/// The mathematical view of an account: the exact balances, the lock flag
/// and the map of recorded deposits.
pub struct AccountView {
    pub client: u16,
    pub available: FixedPointAmount,
    pub held: FixedPointAmount,
    pub total: FixedPointAmount,
    pub locked: bool,
    pub deposits: Map<u32, Deposit>,
}

/// One client's ledger state.
#[derive(Debug)]
pub struct Account {
    pub client: u16,
    pub available: FixedPointAmount,
    pub held: FixedPointAmount,
    pub total: FixedPointAmount,
    pub locked: bool,
    pub deposited: HashMap<u32, Deposit>,
}

impl View for Account {
    type V = AccountView;

    open spec fn view(&self) -> AccountView {
        AccountView {
            client: self.client,
            available: self.available,
            held: self.held,
            total: self.total,
            locked: self.locked,
            deposits: self.deposited@,
        }
    }
}

/// A freshly created account: zero balances, unlocked, no deposits.
pub open spec fn initial_account(client: u16) -> AccountView {
    AccountView {
        client,
        available: amount_of_units(0),
        held: amount_of_units(0),
        total: amount_of_units(0),
        locked: false,
        deposits: Map::empty(),
    }
}

/// The deposit transition.  The id is consumed even when the transaction is
/// rejected for a missing amount, a lock, a negative amount or overflow; a
/// replayed id leaves everything unchanged.
pub open spec fn spec_deposit(
    a: AccountView,
    used: Set<u32>,
    tx: u32,
    amount: Option<FixedPointAmount>,
) -> (AccountView, Set<u32>) {
    if used.contains(tx) {
        (a, used)
    } else {
        let used2 = used.insert(tx);
        match amount {
            Option::None => (a, used2),
            Option::Some(amt) => {
                if a.locked || amt@ < 0 {
                    (a, used2)
                } else if fits_units(a.total@ + amt@) && fits_units(a.available@ + amt@) {
                    (
                        AccountView {
                            available: amount_of_units(a.available@ + amt@),
                            total: amount_of_units(a.total@ + amt@),
                            deposits: a.deposits.insert(
                                tx,
                                Deposit { amount: amt, state: DepositState::NotDisputed },
                            ),
                            ..a
                        },
                        used2,
                    )
                } else {
                    (a, used2)
                }
            },
        }
    }
}

/// The withdrawal transition: the deposit guards plus the insufficient-funds
/// guard; no deposit record is created.
pub open spec fn spec_withdrawl(
    a: AccountView,
    used: Set<u32>,
    tx: u32,
    amount: Option<FixedPointAmount>,
) -> (AccountView, Set<u32>) {
    if used.contains(tx) {
        (a, used)
    } else {
        let used2 = used.insert(tx);
        match amount {
            Option::None => (a, used2),
            Option::Some(amt) => {
                if a.locked || amt@ < 0 {
                    (a, used2)
                } else if a.available@ < amt@ {
                    (a, used2)
                } else if fits_units(a.total@ - amt@) && fits_units(a.available@ - amt@) {
                    (
                        AccountView {
                            available: amount_of_units(a.available@ - amt@),
                            total: amount_of_units(a.total@ - amt@),
                            ..a
                        },
                        used2,
                    )
                } else {
                    (a, used2)
                }
            },
        }
    }
}

/// The dispute transition: holds the deposit's amount when the deposit
/// exists for this account and is not already disputed or charged back.
pub open spec fn spec_dispute(a: AccountView, tx: u32) -> AccountView {
    if a.deposits.contains_key(tx) {
        let d = a.deposits[tx];
        if d.state is NotDisputed {
            if fits_units(a.available@ - d.amount@) && fits_units(a.held@ + d.amount@) {
                AccountView {
                    available: amount_of_units(a.available@ - d.amount@),
                    held: amount_of_units(a.held@ + d.amount@),
                    deposits: a.deposits.insert(
                        tx,
                        Deposit { amount: d.amount, state: DepositState::Disputed },
                    ),
                    ..a
                }
            } else {
                a
            }
        } else {
            a
        }
    } else {
        a
    }
}

/// The resolve transition: releases a disputed deposit's amount back to the
/// available funds.
pub open spec fn spec_resolve(a: AccountView, tx: u32) -> AccountView {
    if a.deposits.contains_key(tx) {
        let d = a.deposits[tx];
        if d.state is Disputed {
            if fits_units(a.available@ + d.amount@) && fits_units(a.held@ - d.amount@) {
                AccountView {
                    available: amount_of_units(a.available@ + d.amount@),
                    held: amount_of_units(a.held@ - d.amount@),
                    deposits: a.deposits.insert(
                        tx,
                        Deposit { amount: d.amount, state: DepositState::NotDisputed },
                    ),
                    ..a
                }
            } else {
                a
            }
        } else {
            a
        }
    } else {
        a
    }
}

/// The chargeback transition: reverses a disputed deposit and freezes the
/// account for good.
pub open spec fn spec_chargeback(a: AccountView, tx: u32) -> AccountView {
    if a.deposits.contains_key(tx) {
        let d = a.deposits[tx];
        if d.state is Disputed {
            if fits_units(a.held@ - d.amount@) && fits_units(a.total@ - d.amount@) {
                AccountView {
                    held: amount_of_units(a.held@ - d.amount@),
                    total: amount_of_units(a.total@ - d.amount@),
                    locked: true,
                    deposits: a.deposits.insert(
                        tx,
                        Deposit { amount: d.amount, state: DepositState::Chargebacked },
                    ),
                    ..a
                }
            } else {
                a
            }
        } else {
            a
        }
    } else {
        a
    }
}

/// The dispatch over the transaction kind; an unknown kind changes nothing.
pub open spec fn spec_update(a: AccountView, used: Set<u32>, t: Transaction) -> (
    AccountView,
    Set<u32>,
) {
    match t.kind {
        TxKind::Deposit => spec_deposit(a, used, t.tx, t.amount),
        TxKind::Withdrawal => spec_withdrawl(a, used, t.tx, t.amount),
        TxKind::Dispute => (spec_dispute(a, t.tx), used),
        TxKind::Resolve => (spec_resolve(a, t.tx), used),
        TxKind::Chargeback => (spec_chargeback(a, t.tx), used),
        TxKind::Unknown => (a, used),
    }
}

impl Account {
    /// A fresh account for `client_num`.
    pub fn new(client_num: u16) -> (r: Self)
        ensures
            r@ == initial_account(client_num),
    {
        Account {
            client: client_num,
            available: FixedPointAmount::zero(),
            held: FixedPointAmount::zero(),
            total: FixedPointAmount::zero(),
            locked: false,
            deposited: HashMap::new(),
        }
    }

    /// Record a deposit: grow `available` and `total` by the amount and
    /// remember the deposit for later disputes.  Rejected without any
    /// mutation of the balances when the id is a replay, the amount is
    /// absent or negative, the account is locked, or either sum overflows;
    /// a fresh id is consumed even then.
    pub fn deposit(&mut self, data: &Transaction, tx_set: &mut TransactionIdRegistry)
        ensures
            (final(self)@, final(tx_set)@) == spec_deposit(
                old(self)@,
                old(tx_set)@,
                data.tx,
                data.amount,
            ),
    {
        let fresh = tx_set.try_consume(data.tx);
        if !fresh {
            proof {
                assert(old(tx_set)@.insert(data.tx) =~= old(tx_set)@);
            }
            return ;
        }
        let amount = match data.amount {
            Option::Some(a) => a,
            Option::None => {
                return ;
            },
        };
        if self.locked {
            return ;
        }
        if amount.is_negative() {
            return ;
        }
        let total_new = match self.total.checked_add(amount) {
            Option::Some(v) => v,
            Option::None => {
                return ;
            },
        };
        let available_new = match self.available.checked_add(amount) {
            Option::Some(v) => v,
            Option::None => {
                return ;
            },
        };
        self.total = total_new;
        self.available = available_new;
        self.deposited.insert(data.tx, Deposit::new(amount));
    }

    /// Record a withdrawal: shrink `available` and `total` by the amount.
    /// Rejected without mutation under the deposit guards, and also when the
    /// available funds do not cover the amount.
    pub fn withdrawl(&mut self, data: &Transaction, tx_set: &mut TransactionIdRegistry)
        ensures
            (final(self)@, final(tx_set)@) == spec_withdrawl(
                old(self)@,
                old(tx_set)@,
                data.tx,
                data.amount,
            ),
    {
        let fresh = tx_set.try_consume(data.tx);
        if !fresh {
            proof {
                assert(old(tx_set)@.insert(data.tx) =~= old(tx_set)@);
            }
            return ;
        }
        let amount = match data.amount {
            Option::Some(a) => a,
            Option::None => {
                return ;
            },
        };
        if self.locked {
            return ;
        }
        if amount.is_negative() {
            return ;
        }
        if self.available.lt(amount) {
            return ;
        }
        let total_new = match self.total.checked_sub(amount) {
            Option::Some(v) => v,
            Option::None => {
                return ;
            },
        };
        let available_new = match self.available.checked_sub(amount) {
            Option::Some(v) => v,
            Option::None => {
                return ;
            },
        };
        self.total = total_new;
        self.available = available_new;
    }

    /// Open a dispute against a recorded deposit: move its amount from
    /// available to held funds.  Ignored when the id is unknown here, the
    /// deposit is already disputed or charged back, or a move would
    /// overflow.
    pub fn dispute(&mut self, data: &Transaction)
        ensures
            final(self)@ == spec_dispute(old(self)@, data.tx),
    {
        let dep = match self.deposited.get(&data.tx) {
            Option::Some(d) => *d,
            Option::None => {
                return ;
            },
        };
        match dep.state {
            DepositState::Chargebacked => {},
            DepositState::Disputed => {},
            DepositState::NotDisputed => {
                let available_new = match self.available.checked_sub(dep.amount) {
                    Option::Some(v) => v,
                    Option::None => {
                        return ;
                    },
                };
                let held_new = match self.held.checked_add(dep.amount) {
                    Option::Some(v) => v,
                    Option::None => {
                        return ;
                    },
                };
                self.available = available_new;
                self.held = held_new;
                self.deposited.insert(
                    data.tx,
                    Deposit { amount: dep.amount, state: DepositState::Disputed },
                );
            },
        }
    }

    /// Settle a dispute in the client's favour: move the amount back from
    /// held to available funds; the deposit may be disputed again later.
    /// Ignored when the id is unknown here or the deposit is not disputed.
    pub fn resolve(&mut self, data: &Transaction)
        ensures
            final(self)@ == spec_resolve(old(self)@, data.tx),
    {
        let dep = match self.deposited.get(&data.tx) {
            Option::Some(d) => *d,
            Option::None => {
                return ;
            },
        };
        match dep.state {
            DepositState::Chargebacked => {},
            DepositState::NotDisputed => {},
            DepositState::Disputed => {
                let available_new = match self.available.checked_add(dep.amount) {
                    Option::Some(v) => v,
                    Option::None => {
                        return ;
                    },
                };
                let held_new = match self.held.checked_sub(dep.amount) {
                    Option::Some(v) => v,
                    Option::None => {
                        return ;
                    },
                };
                self.available = available_new;
                self.held = held_new;
                self.deposited.insert(
                    data.tx,
                    Deposit { amount: dep.amount, state: DepositState::NotDisputed },
                );
            },
        }
    }

    /// Settle a dispute against the client: drop the amount from held and
    /// total funds, mark the deposit charged back for good and freeze the
    /// account.  Ignored when the id is unknown here or the deposit is not
    /// disputed.
    pub fn chargeback(&mut self, data: &Transaction)
        ensures
            final(self)@ == spec_chargeback(old(self)@, data.tx),
    {
        let dep = match self.deposited.get(&data.tx) {
            Option::Some(d) => *d,
            Option::None => {
                return ;
            },
        };
        match dep.state {
            DepositState::Chargebacked => {},
            DepositState::NotDisputed => {},
            DepositState::Disputed => {
                let held_new = match self.held.checked_sub(dep.amount) {
                    Option::Some(v) => v,
                    Option::None => {
                        return ;
                    },
                };
                let total_new = match self.total.checked_sub(dep.amount) {
                    Option::Some(v) => v,
                    Option::None => {
                        return ;
                    },
                };
                self.held = held_new;
                self.total = total_new;
                self.deposited.insert(
                    data.tx,
                    Deposit { amount: dep.amount, state: DepositState::Chargebacked },
                );
                self.locked = true;
            },
        }
    }

    /// Apply one decoded transaction to this account, dispatching on its
    /// kind; an unknown kind is rejected without mutation.
    pub fn update(&mut self, data: &Transaction, tx_set: &mut TransactionIdRegistry)
        ensures
            (final(self)@, final(tx_set)@) == spec_update(old(self)@, old(tx_set)@, *data),
    {
        match data.kind {
            TxKind::Deposit => self.deposit(data, tx_set),
            TxKind::Withdrawal => self.withdrawl(data, tx_set),
            TxKind::Dispute => self.dispute(data),
            TxKind::Resolve => self.resolve(data),
            TxKind::Chargeback => self.chargeback(data),
            TxKind::Unknown => {},
        }
    }
}

} // verus!
