//! The ledger and the transaction engine that applies records to it.

use crate::account::Account;
use crate::amount::{spec_difference, spec_sum, Amount};
use crate::output::OutputRow;
use crate::transaction::{Action, ActionKind, ActionStatus, Transaction, TransactionKind};
use std::collections::HashMap;
use vstd::prelude::*;

verus! {

broadcast use vstd::std_specs::hash::group_hash_axioms;

/// Number of client ids: every `u16` has an account.
pub const NUM_CLIENTS: usize = 65536;

/// What the ledger holds: one account per client id, and the action that
/// each accepted deposit or withdrawal left, by transaction id.
pub struct Ledger {
    pub accounts: Seq<Account>,
    pub actions: Map<u32, Action>,
}

/// New balances `(total, held)`, where both could be held exactly and so
/// can the funds available from them.
pub open spec fn balances(total: Option<Amount>, held: Option<Amount>) -> Option<(Amount, Amount)> {
    match (total, held) {
        (Some(t), Some(h)) => if spec_difference(t, h) is Some {
            Some((t, h))
        } else {
            None
        },
        _ => None,
    }
}

/// The balances after a correction (dispute, resolve or chargeback) of an
/// action of kind `kind`.
pub open spec fn corrected(account: Account, kind: ActionKind, op: TransactionKind) -> Option<
    (Amount, Amount),
> {
    let total = account.total;
    let held = account.held;
    match (op, kind) {
        (TransactionKind::Dispute, ActionKind::Deposit { amount }) => balances(
            Some(total),
            spec_sum(held, amount),
        ),
        (TransactionKind::Dispute, ActionKind::Withdrawal { amount }) => balances(
            spec_sum(total, amount),
            spec_sum(held, amount),
        ),
        (TransactionKind::Resolve, ActionKind::Deposit { amount }) => balances(
            spec_difference(total, amount),
            spec_difference(held, amount),
        ),
        (TransactionKind::Resolve, ActionKind::Withdrawal { amount }) => balances(
            Some(total),
            spec_difference(held, amount),
        ),
        (TransactionKind::Chargeback, ActionKind::Deposit { amount }) => balances(
            Some(total),
            spec_difference(held, amount),
        ),
        (TransactionKind::Chargeback, ActionKind::Withdrawal { amount }) => balances(
            spec_difference(total, amount),
            spec_difference(held, amount),
        ),
        _ => None,
    }
}

/// The status an action must have for the correction `op` to apply.
pub open spec fn status_before(op: TransactionKind) -> ActionStatus {
    match op {
        TransactionKind::Dispute => ActionStatus::Fresh,
        _ => ActionStatus::Disputed,
    }
}

/// The status an action has after the correction `op`.
pub open spec fn status_after(op: TransactionKind) -> ActionStatus {
    match op {
        TransactionKind::Dispute => ActionStatus::Disputed,
        _ => ActionStatus::Final,
    }
}

impl Ledger {
    /// Every client inactive, no actions.
    pub open spec fn initial() -> Ledger {
        Ledger {
            accounts: Seq::new(NUM_CLIENTS as nat, |i: int| Account::spec_inactive()),
            actions: Map::empty(),
        }
    }

    /// One account per client id, and each account's available funds can
    /// be held exactly.
    pub open spec fn wf(self) -> bool {
        &&& self.accounts.len() == NUM_CLIENTS
        &&& forall|i: int|
            0 <= i < NUM_CLIENTS ==> (#[trigger] self.accounts[i]).spec_available() is Some
    }

    pub open spec fn account(self, cid: u16) -> Account {
        self.accounts[cid as int]
    }

    pub open spec fn with_account(self, cid: u16, account: Account) -> Ledger {
        Ledger { accounts: self.accounts.update(cid as int, account), ..self }
    }

    pub open spec fn with_action(self, tid: u32, action: Action) -> Ledger {
        Ledger { actions: self.actions.insert(tid, action), ..self }
    }

    /// The ledger after the record `t`.
    ///
    /// A record for a locked account changes nothing. Any other record
    /// marks its account active, then:
    /// - a deposit adds its amount to `total` and is remembered as a fresh
    ///   action;
    /// - a withdrawal is taken from `total` and remembered, if the funds
    ///   available are at least its amount;
    /// - a dispute, resolve or chargeback names an action of the same client
    ///   in the status it needs (fresh, disputed, disputed), moves the
    ///   balances as `corrected` says and the action on (to disputed, final,
    ///   final); a chargeback also locks the account.
    ///
    /// A record whose new balances could not be held exactly (nor the funds
    /// available from them) is refused like the others: no change beyond
    /// the activity mark.
    pub open spec fn step(self, t: Transaction) -> Ledger {
        let account = self.account(t.cid);
        if account.is_locked {
            self
        } else {
            let active = Account { has_activity: true, ..account };
            let touched = self.with_account(t.cid, active);
            match t.kind {
                TransactionKind::Deposit { amount } => match balances(
                    spec_sum(account.total, amount),
                    Some(account.held),
                ) {
                    Some((total, held)) => touched.with_account(
                        t.cid,
                        Account { total, held, ..active },
                    ).with_action(
                        t.tid,
                        Action {
                            cid: t.cid,
                            kind: ActionKind::Deposit { amount },
                            status: ActionStatus::Fresh,
                        },
                    ),
                    None => touched,
                },
                TransactionKind::Withdrawal { amount } => {
                    let enough = match account.spec_available() {
                        Some(available) => available.units() >= amount.units(),
                        None => false,
                    };
                    match balances(spec_difference(account.total, amount), Some(account.held)) {
                        Some((total, held)) if enough => touched.with_account(
                            t.cid,
                            Account { total, held, ..active },
                        ).with_action(
                            t.tid,
                            Action {
                                cid: t.cid,
                                kind: ActionKind::Withdrawal { amount },
                                status: ActionStatus::Fresh,
                            },
                        ),
                        _ => touched,
                    }
                },
                _ => {
                    if !self.actions.contains_key(t.tid) {
                        touched
                    } else {
                        let action = self.actions[t.tid];
                        if action.cid != t.cid || action.status != status_before(t.kind) {
                            touched
                        } else {
                            match corrected(account, action.kind, t.kind) {
                                Some((total, held)) => touched.with_account(
                                    t.cid,
                                    Account {
                                        total,
                                        held,
                                        is_locked: t.kind is Chargeback,
                                        ..active
                                    },
                                ).with_action(
                                    t.tid,
                                    Action { status: status_after(t.kind), ..action },
                                ),
                                None => touched,
                            }
                        }
                    }
                },
            }
        }
    }
}

/// The report row of client `cid`.
pub open spec fn row_of(cid: int, account: Account) -> OutputRow {
    OutputRow {
        client: cid as u16,
        available: account.spec_available().unwrap(),
        held: account.held,
        total: account.total,
        locked: account.is_locked,
    }
}

/// The rows of the active accounts among the first `n`, by ascending
/// client id.
pub open spec fn report_upto(accounts: Seq<Account>, n: int) -> Seq<OutputRow>
    decreases n,
{
    if n <= 0 {
        seq![]
    } else {
        let earlier = report_upto(accounts, n - 1);
        if accounts[n - 1].has_activity {
            earlier.push(row_of(n - 1, accounts[n - 1]))
        } else {
            earlier
        }
    }
}

impl Ledger {
    /// The ledger after the records `txs`, in order.
    pub open spec fn replay(self, txs: Seq<Transaction>) -> Ledger
        decreases txs.len(),
    {
        if txs.len() == 0 {
            self
        } else {
            self.replay(txs.drop_last()).step(txs.last())
        }
    }

    /// One row per active account, by ascending client id.
    pub open spec fn report(self) -> Seq<OutputRow> {
        report_upto(self.accounts, NUM_CLIENTS as int)
    }
}

/// The accounts of all clients and the actions that corrections can name.
pub struct Payments {
    accounts: Vec<Account>,
    actions: HashMap<u32, Action>,
}

impl View for Payments {
    type V = Ledger;

    closed spec fn view(&self) -> Ledger {
        Ledger { accounts: self.accounts@, actions: self.actions@ }
    }
}

/// The new balances, where they and the funds available from them can be
/// held exactly.
fn settle(total: Option<Amount>, held: Option<Amount>) -> (r: Option<(Amount, Amount)>)
    ensures
        r == balances(total, held),
{
    match (total, held) {
        (Some(t), Some(h)) => match t.checked_sub(h) {
            Some(_) => Some((t, h)),
            None => None,
        },
        _ => None,
    }
}

/// The balances after the correction `op` of an action of kind `kind`.
fn correct(account: &Account, kind: ActionKind, op: &TransactionKind) -> (r: Option<
    (Amount, Amount),
>)
    ensures
        r == corrected(*account, kind, *op),
{
    let total = account.total;
    let held = account.held;
    match (op, kind) {
        (TransactionKind::Dispute, ActionKind::Deposit { amount }) => settle(
            Some(total),
            held.checked_add(amount),
        ),
        (TransactionKind::Dispute, ActionKind::Withdrawal { amount }) => settle(
            total.checked_add(amount),
            held.checked_add(amount),
        ),
        (TransactionKind::Resolve, ActionKind::Deposit { amount }) => settle(
            total.checked_sub(amount),
            held.checked_sub(amount),
        ),
        (TransactionKind::Resolve, ActionKind::Withdrawal { amount }) => settle(
            Some(total),
            held.checked_sub(amount),
        ),
        (TransactionKind::Chargeback, ActionKind::Deposit { amount }) => settle(
            Some(total),
            held.checked_sub(amount),
        ),
        (TransactionKind::Chargeback, ActionKind::Withdrawal { amount }) => settle(
            total.checked_sub(amount),
            held.checked_sub(amount),
        ),
        _ => None,
    }
}

fn required_status(op: &TransactionKind) -> (r: ActionStatus)
    ensures
        r == status_before(*op),
{
    match op {
        TransactionKind::Dispute => ActionStatus::Fresh,
        _ => ActionStatus::Disputed,
    }
}

fn next_status(op: &TransactionKind) -> (r: ActionStatus)
    ensures
        r == status_after(*op),
{
    match op {
        TransactionKind::Dispute => ActionStatus::Disputed,
        _ => ActionStatus::Final,
    }
}

impl Payments {
    /// The accounts, indexed by client id.
    pub fn accounts(&self) -> (r: &Vec<Account>)
        ensures
            r@ == self@.accounts,
    {
        &self.accounts
    }

    /// The account of client `cid`.
    pub fn account(&self, cid: u16) -> (r: Account)
        requires
            self@.wf(),
        ensures
            r == self@.account(cid),
    {
        self.accounts[cid as usize]
    }

    /// Applies one record to the ledger, as `Ledger::step` says. Records
    /// that the rules refuse leave no trace but the activity mark.
    pub fn process_transaction(&mut self, transaction: &Transaction)
        requires
            old(self)@.wf(),
        ensures
            final(self)@ == old(self)@.step(*transaction),
            final(self)@.wf(),
    {
        let cid = transaction.cid as usize;
        let account = self.accounts[cid];
        if account.is_locked {
            return;
        }
        let active = Account { has_activity: true, ..account };
        self.accounts.set(cid, active);
        match transaction.kind {
            TransactionKind::Deposit { amount } => {
                if let Some((total, held)) = settle(
                    account.total.checked_add(amount),
                    Some(account.held),
                ) {
                    self.accounts.set(cid, Account { total, held, ..active });
                    self.actions.insert(
                        transaction.tid,
                        Action {
                            cid: transaction.cid,
                            kind: ActionKind::Deposit { amount },
                            status: ActionStatus::Fresh,
                        },
                    );
                }
            },
            TransactionKind::Withdrawal { amount } => {
                let enough = match account.get_available() {
                    Some(available) => available.at_least(&amount),
                    None => false,
                };
                if enough {
                    if let Some((total, held)) = settle(
                        account.total.checked_sub(amount),
                        Some(account.held),
                    ) {
                        self.accounts.set(cid, Account { total, held, ..active });
                        self.actions.insert(
                            transaction.tid,
                            Action {
                                cid: transaction.cid,
                                kind: ActionKind::Withdrawal { amount },
                                status: ActionStatus::Fresh,
                            },
                        );
                    }
                }
            },
            _ => {
                let action = match self.actions.get(&transaction.tid) {
                    Some(action) => *action,
                    None => {
                        return;
                    },
                };
                if action.cid != transaction.cid || action.status != required_status(
                    &transaction.kind,
                ) {
                    return;
                }
                if let Some((total, held)) = correct(&account, action.kind, &transaction.kind) {
                    let locked = matches!(transaction.kind, TransactionKind::Chargeback);
                    self.accounts.set(cid, Account { total, held, is_locked: locked, ..active });
                    self.actions.insert(
                        transaction.tid,
                        Action { status: next_status(&transaction.kind), ..action },
                    );
                }
            },
        }
    }
}

impl Payments {
    /// One row per active account, by ascending client id, with the funds
    /// available next to `held` and `total`.
    pub fn report(&self) -> (rows: Vec<OutputRow>)
        requires
            self@.wf(),
        ensures
            rows@ == self@.report(),
    {
        let mut rows: Vec<OutputRow> = Vec::new();
        let mut i: usize = 0;
        while i < NUM_CLIENTS
            invariant
                i <= NUM_CLIENTS,
                self@.wf(),
                rows@ == report_upto(self@.accounts, i as int),
            decreases NUM_CLIENTS - i,
        {
            let account = self.accounts[i];
            if account.has_activity {
                let available = account.get_available();
                assert(self@.accounts[i as int].spec_available() is Some);
                rows.push(
                    OutputRow {
                        client: i as u16,
                        available: available.unwrap(),
                        held: account.held,
                        total: account.total,
                        locked: account.is_locked,
                    },
                );
            }
            i = i + 1;
        }
        rows
    }
}

impl Default for Payments {
    /// Every client inactive, no actions.
    fn default() -> (r: Payments)
        ensures
            r@ == Ledger::initial(),
            r@.wf(),
    {
        let mut accounts: Vec<Account> = Vec::with_capacity(NUM_CLIENTS);
        let mut i: usize = 0;
        while i < NUM_CLIENTS
            invariant
                i <= NUM_CLIENTS,
                accounts@.len() == i,
                forall|j: int| 0 <= j < i ==> accounts@[j] == Account::spec_inactive(),
            decreases NUM_CLIENTS - i,
        {
            accounts.push(Account::default());
            i = i + 1;
        }
        let r = Payments { accounts, actions: HashMap::new() };
        assert(r@.accounts =~= Ledger::initial().accounts);
        r
    }
}

} // verus!
