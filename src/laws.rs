//! Laws of the transaction engine, proved over the model that
//! `Payments::process_transaction` follows.

use crate::account::Account;
use crate::amount::{
    fits_at, lemma_amount_of, lemma_difference_exact, lemma_pow10_positive, lemma_sum_exact,
    spec_difference, spec_sum, spec_zero, Amount, MAX_SCALE,
};
use crate::payments::{corrected, Ledger};
use crate::transaction::{ActionStatus, Transaction, TransactionKind};
use vstd::prelude::*;

verus! {

/// Disputing the same transaction twice in a row has the effect of
/// disputing it once.
pub proof fn lemma_dispute_idempotent(l: Ledger, t: Transaction)
    requires
        l.wf(),
        t.kind is Dispute,
    ensures
        l.step(t).step(t) == l.step(t),
{
    let once = l.step(t);
    let c = t.cid as int;
    if !l.account(t.cid).is_locked {
        assert(once.accounts[c].has_activity);
        let again = once.step(t);
        if !l.actions.contains_key(t.tid) || l.actions[t.tid].cid != t.cid || l.actions[t.tid].status
            != ActionStatus::Fresh {
            assert(once.actions == l.actions);
            assert(again.accounts =~= once.accounts);
        } else {
            let action = l.actions[t.tid];
            match corrected(l.account(t.cid), action.kind, t.kind) {
                Some(_) => {
                    assert(once.actions[t.tid].status == ActionStatus::Disputed);
                    assert(again.accounts =~= once.accounts);
                    assert(again.actions == once.actions);
                },
                None => {
                    assert(once.actions == l.actions);
                    assert(once.accounts[c] == Account { has_activity: true, ..l.accounts[c] });
                    assert(again.accounts =~= once.accounts);
                },
            }
        }
    }
}

/// A withdrawal of more than the funds available is refused: the client's
/// `total` and `held` stay as they were, and no action is recorded.
pub proof fn lemma_overdraft_refused(l: Ledger, t: Transaction, amount: Amount)
    requires
        l.wf(),
        t.kind == (TransactionKind::Withdrawal { amount }),
        l.account(t.cid).spec_available().unwrap().units() < amount.units(),
    ensures
        l.step(t).account(t.cid).total == l.account(t.cid).total,
        l.step(t).account(t.cid).held == l.account(t.cid).held,
        l.step(t).actions == l.actions,
{
}

/// Disputing a transaction that another client issued is refused: neither
/// the disputing client's balances nor the owner's change, nor the action.
pub proof fn lemma_foreign_dispute_refused(l: Ledger, t: Transaction)
    requires
        l.wf(),
        t.kind is Dispute,
        l.actions.contains_key(t.tid),
        l.actions[t.tid].cid != t.cid,
    ensures
        l.step(t).account(t.cid).total == l.account(t.cid).total,
        l.step(t).account(t.cid).held == l.account(t.cid).held,
        l.step(t).account(l.actions[t.tid].cid).total == l.account(l.actions[t.tid].cid).total,
        l.step(t).account(l.actions[t.tid].cid).held == l.account(l.actions[t.tid].cid).held,
        l.step(t).actions == l.actions,
{
}

/// A chargeback of a disputed action of the same client, whose balances can
/// be held, locks the client's account.
pub proof fn lemma_chargeback_locks(l: Ledger, t: Transaction)
    requires
        l.wf(),
        t.kind is Chargeback,
        !l.account(t.cid).is_locked,
        l.actions.contains_key(t.tid),
        l.actions[t.tid].cid == t.cid,
        l.actions[t.tid].status == ActionStatus::Disputed,
        corrected(l.account(t.cid), l.actions[t.tid].kind, t.kind) is Some,
    ensures
        l.step(t).account(t.cid).is_locked,
        l.step(t).actions[t.tid].status == ActionStatus::Final,
{
}

/// Once an account is locked, every record for it changes nothing at all.
pub proof fn lemma_locked_record_is_noop(l: Ledger, t: Transaction)
    requires
        l.wf(),
        l.account(t.cid).is_locked,
    ensures
        l.step(t) == l,
{
}

/// Once an account is locked, it stays exactly as it is, and locked,
/// whatever records follow.
pub proof fn lemma_locked_account_stays(l: Ledger, txs: Seq<Transaction>, cid: u16)
    requires
        l.wf(),
        l.account(cid).is_locked,
    ensures
        l.replay(txs).account(cid) == l.account(cid),
        l.replay(txs).wf(),
    decreases txs.len(),
{
    if txs.len() > 0 {
        lemma_locked_account_stays(l, txs.drop_last(), cid);
        let before = l.replay(txs.drop_last());
        lemma_step_wf(before, txs.last());
    }
}

/// A step keeps the ledger well formed.
pub proof fn lemma_step_wf(l: Ledger, t: Transaction)
    requires
        l.wf(),
    ensures
        l.step(t).wf(),
{
}

/// The largest of three scales.
pub open spec fn max3(a: Amount, b: Amount, c: Amount) -> nat {
    let ab = if a.spec_scale() >= b.spec_scale() {
        a.spec_scale()
    } else {
        b.spec_scale()
    };
    if ab >= c.spec_scale() {
        ab
    } else {
        c.spec_scale()
    }
}

/// Depositing, disputing that deposit and resolving the dispute gives the
/// client back the `total` and `held` it had before the deposit.
///
/// Stated where every intermediate value fits in the decimal range at the
/// largest scale involved, so that no step is refused for want of range.
pub proof fn lemma_dispute_resolve_restores(l: Ledger, cid: u16, tid: u32, amount: Amount)
    requires
        l.wf(),
        !l.account(cid).is_locked,
        amount.wf(),
        l.account(cid).total.wf(),
        l.account(cid).held.wf(),
        ({
            let t = l.account(cid).total.units();
            let h = l.account(cid).held.units();
            let a = amount.units();
            let s = max3(l.account(cid).total, l.account(cid).held, amount);
            &&& fits_at(t, s)
            &&& fits_at(h, s)
            &&& fits_at(t + a, s)
            &&& fits_at(h + a, s)
            &&& fits_at(t + a - h, s)
            &&& fits_at(t - h, s)
        }),
    ensures
        ({
            let after = l.step(Transaction { tid, cid, kind: TransactionKind::Deposit { amount } }).step(
                Transaction { tid, cid, kind: TransactionKind::Dispute },
            ).step(Transaction { tid, cid, kind: TransactionKind::Resolve });
            &&& after.account(cid).total.units() == l.account(cid).total.units()
            &&& after.account(cid).held.units() == l.account(cid).held.units()
        }),
{
    let total = l.account(cid).total;
    let held = l.account(cid).held;
    let s = max3(total, held, amount);
    let dep = Transaction { tid, cid, kind: TransactionKind::Deposit { amount } };
    let dis = Transaction { tid, cid, kind: TransactionKind::Dispute };
    let res = Transaction { tid, cid, kind: TransactionKind::Resolve };
    // deposit
    lemma_sum_exact(total, amount, s);
    let total1 = spec_sum(total, amount).unwrap();
    lemma_difference_exact(total1, held, s);
    let l1 = l.step(dep);
    assert(l1.account(cid).total == total1);
    assert(l1.account(cid).held == held);
    assert(l1.actions[tid].status == ActionStatus::Fresh);
    // dispute
    lemma_sum_exact(held, amount, s);
    let held1 = spec_sum(held, amount).unwrap();
    lemma_difference_exact(total1, held1, s);
    let l2 = l1.step(dis);
    assert(l2.account(cid).total == total1);
    assert(l2.account(cid).held == held1);
    assert(l2.actions[tid].status == ActionStatus::Disputed);
    // resolve
    lemma_difference_exact(total1, amount, s);
    lemma_difference_exact(held1, amount, s);
    let total2 = spec_difference(total1, amount).unwrap();
    let held2 = spec_difference(held1, amount).unwrap();
    lemma_difference_exact(total2, held2, s);
    let l3 = l2.step(res);
    assert(l3.account(cid).total == total2);
    assert(l3.account(cid).held == held2);
}

/// Sum of the amounts that the deposits among `txs` bring to client `cid`.
pub open spec fn deposited(txs: Seq<Transaction>, cid: u16) -> int
    decreases txs.len(),
{
    if txs.len() == 0 {
        0
    } else {
        deposited(txs.drop_last(), cid) + match txs.last().kind {
            TransactionKind::Deposit { amount } => if txs.last().cid == cid {
                amount.units()
            } else {
                0
            },
            _ => 0,
        }
    }
}

/// Sum of the amounts of all deposits among `txs`.
pub open spec fn deposited_all(txs: Seq<Transaction>) -> int
    decreases txs.len(),
{
    if txs.len() == 0 {
        0
    } else {
        deposited_all(txs.drop_last()) + match txs.last().kind {
            TransactionKind::Deposit { amount } => amount.units(),
            _ => 0,
        }
    }
}

/// Every record of `txs` is a deposit of a valid, positive amount with at
/// most `scale` fractional digits.
pub open spec fn deposits_only(txs: Seq<Transaction>, scale: nat) -> bool {
    forall|i: int|
        0 <= i < txs.len() ==> match (#[trigger] txs[i]).kind {
            TransactionKind::Deposit { amount } => amount.wf() && amount.units() > 0
                && amount.spec_scale() <= scale,
            _ => false,
        }
}

proof fn lemma_fits_below(v: int, w: int, scale: nat)
    requires
        0 <= v <= w,
        fits_at(w, scale),
    ensures
        fits_at(v, scale),
{
    lemma_pow10_positive((MAX_SCALE - scale) as nat);
}

proof fn lemma_deposits_invariant(txs: Seq<Transaction>, scale: nat)
    requires
        scale <= MAX_SCALE,
        deposits_only(txs, scale),
        fits_at(deposited_all(txs), scale),
    ensures
        Ledger::initial().replay(txs).wf(),
        0 <= deposited_all(txs),
        forall|cid: u16|
            {
                let a = #[trigger] Ledger::initial().replay(txs).account(cid);
                &&& a.total.units() == deposited(txs, cid)
                &&& a.total.wf()
                &&& a.total.spec_scale() <= scale
                &&& a.held == spec_zero()
                &&& !a.is_locked
                &&& 0 <= deposited(txs, cid) <= deposited_all(txs)
            },
    decreases txs.len(),
{
    lemma_amount_of(0, 0);
    if txs.len() > 0 {
        let prefix = txs.drop_last();
        let t = txs.last();
        assert forall|i: int| 0 <= i < prefix.len() implies match (#[trigger] prefix[i]).kind {
            TransactionKind::Deposit { amount } => amount.wf() && amount.units() > 0
                && amount.spec_scale() <= scale,
            _ => false,
        } by {
            assert(prefix[i] == txs[i]);
        }
        assert(match txs[txs.len() - 1].kind {
            TransactionKind::Deposit { amount } => amount.wf() && amount.units() > 0
                && amount.spec_scale() <= scale,
            _ => false,
        });
        let amount = t.kind->Deposit_amount;
        lemma_deposits_invariant_prefix(txs, scale);
        lemma_fits_below(deposited_all(prefix), deposited_all(txs), scale);
        lemma_deposits_invariant(prefix, scale);
        let l = Ledger::initial().replay(prefix);
        let total = l.account(t.cid).total;
        assert(0 <= deposited(prefix, t.cid) <= deposited_all(prefix));
        lemma_fits_below(total.units() + amount.units(), deposited_all(txs), scale);
        lemma_sum_exact(total, amount, scale);
        lemma_step_wf(l, t);
        assert forall|cid: u16|
            {
                let a = #[trigger] Ledger::initial().replay(txs).account(cid);
                &&& a.total.units() == deposited(txs, cid)
                &&& a.total.wf()
                &&& a.total.spec_scale() <= scale
                &&& a.held == spec_zero()
                &&& !a.is_locked
                &&& 0 <= deposited(txs, cid) <= deposited_all(txs)
            } by {
            assert(Ledger::initial().replay(prefix).account(cid) == l.account(cid));
            if cid == t.cid {
                assert(spec_difference(spec_sum(total, amount).unwrap(), spec_zero()) is Some);
            }
        }
    }
}

proof fn lemma_deposits_invariant_prefix(txs: Seq<Transaction>, scale: nat)
    requires
        txs.len() > 0,
        deposits_only(txs, scale),
    ensures
        deposits_only(txs.drop_last(), scale),
        deposited_all(txs) > deposited_all(txs.drop_last()) >= 0,
    decreases txs.len(),
{
    let prefix = txs.drop_last();
    assert forall|i: int| 0 <= i < prefix.len() implies match (#[trigger] prefix[i]).kind {
        TransactionKind::Deposit { amount } => amount.wf() && amount.units() > 0
            && amount.spec_scale() <= scale,
        _ => false,
    } by {
        assert(prefix[i] == txs[i]);
    }
    assert(txs.last() == txs[txs.len() - 1]);
    if prefix.len() > 0 {
        lemma_deposits_invariant_prefix(prefix, scale);
    }
}

/// From a fresh ledger, a run of deposits only leaves each client a `total`
/// equal to the sum of its deposits, nothing held, and no lock.
///
/// Stated where the sum of all the deposits fits in the decimal range at a
/// scale that bounds every amount's scale.
pub proof fn lemma_deposits_add_up(txs: Seq<Transaction>, scale: nat)
    requires
        scale <= MAX_SCALE,
        deposits_only(txs, scale),
        fits_at(deposited_all(txs), scale),
    ensures
        forall|cid: u16|
            {
                let a = #[trigger] Ledger::initial().replay(txs).account(cid);
                &&& a.total.units() == deposited(txs, cid)
                &&& a.held.units() == 0
                &&& !a.is_locked
            },
{
    lemma_amount_of(0, 0);
    lemma_deposits_invariant(txs, scale);
}

} // verus!
