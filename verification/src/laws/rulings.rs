//! Laws of the rulings: when each transaction is refused, for which reason, and what it does to the
//! balances and the record when it is applied.

use crate::amount::Dec;
use crate::domain::{AccountView, ProcessorSoftFailures, TxType, TxView};
use crate::ledger::{Ledger, Ruling};
use vstd::prelude::*;

verus! {

/// Only deposits and withdrawals carry money of their own.
pub proof fn law_only_deposits_and_withdrawals_are_monetary(t: TxType)
    ensures
        t.is_monetary() <==> t == TxType::Deposit || t == TxType::Withdrawal,
{
}

/// A client of whom nothing is known has nothing and is not locked; any other has the account on
/// record.
pub proof fn law_unknown_clients_have_nothing(l: Ledger, client_id: u16)
    ensures
        l.accounts.contains_key(client_id) ==> l.account(client_id) == l.accounts[client_id],
        !l.accounts.contains_key(client_id) ==> {
            let a = l.account(client_id);
            &&& a.client_id == client_id
            &&& a.available.units() == 0
            &&& a.held.units() == 0
            &&& a.total.units() == 0
            &&& !a.locked
        },
{
}

impl AccountView {
    /// Whether this is the account of the same client with these values, in units of `10^-28`, in
    /// available, held and total, rounded where an amount cannot hold them.
    pub open spec fn settles(
        self,
        old: AccountView,
        available: int,
        held: int,
        total: int,
        locked: bool,
    ) -> bool {
        &&& self.client_id == old.client_id
        &&& self.available.settles(available)
        &&& self.held.settles(held)
        &&& self.total.settles(total)
        &&& self.locked == locked
    }
}

/// Crediting an amount adds it to available and total: exactly where amounts can
/// hold the new balances, rounded elsewhere, and not at all where one of them is out of range.
pub proof fn law_deposited(a: AccountView, x: Dec)
    requires
        a.wf(),
        x.wf(),
    ensures
        a.deposited(x) is Some <==> Dec::in_range(a.available.units() + x.units())
            && Dec::in_range(a.total.units() + x.units()),
        a.deposited(x) matches Some(b) ==> {
            &&& b.settles(
                a,
                a.available.units() + x.units(),
                a.held.units(),
                a.total.units() + x.units(),
                a.locked,
            )
            &&& b.held == a.held
        },
{
    lemma_operands_settle(a, x);
}

/// Debiting an amount takes it from available and total: exactly where amounts can
/// hold the new balances, rounded elsewhere, and not at all where one of them is out of range.
pub proof fn law_withdrawn(a: AccountView, x: Dec)
    requires
        a.wf(),
        x.wf(),
    ensures
        a.withdrawn(x) is Some <==> Dec::in_range(a.available.units() - x.units())
            && Dec::in_range(a.total.units() - x.units()),
        a.withdrawn(x) matches Some(b) ==> {
            &&& b.settles(
                a,
                a.available.units() - x.units(),
                a.held.units(),
                a.total.units() - x.units(),
                a.locked,
            )
            &&& b.held == a.held
        },
{
    lemma_operands_settle(a, x);
}

/// Disputing an amount moves it from available to held: exactly where amounts can
/// hold the new balances, rounded elsewhere, and not at all where one of them is out of range.
pub proof fn law_disputed(a: AccountView, x: Dec)
    requires
        a.wf(),
        x.wf(),
    ensures
        a.disputed(x) is Some <==> Dec::in_range(a.available.units() - x.units())
            && Dec::in_range(a.held.units() + x.units()),
        a.disputed(x) matches Some(b) ==> {
            &&& b.settles(
                a,
                a.available.units() - x.units(),
                a.held.units() + x.units(),
                a.total.units(),
                a.locked,
            )
            &&& b.total == a.total
        },
{
    lemma_operands_settle(a, x);
}

/// Resolving an amount moves it from held to available: exactly where amounts can
/// hold the new balances, rounded elsewhere, and not at all where one of them is out of range.
pub proof fn law_resolved(a: AccountView, x: Dec)
    requires
        a.wf(),
        x.wf(),
    ensures
        a.resolved(x) is Some <==> Dec::in_range(a.available.units() + x.units())
            && Dec::in_range(a.held.units() - x.units()),
        a.resolved(x) matches Some(b) ==> {
            &&& b.settles(
                a,
                a.available.units() + x.units(),
                a.held.units() - x.units(),
                a.total.units(),
                a.locked,
            )
            &&& b.total == a.total
        },
{
    lemma_operands_settle(a, x);
}

/// Charging an amount back takes it from held and total, and locks the account: exactly where
/// amounts can hold the new balances, rounded elsewhere, and not at all where one of them is out of
/// range.
pub proof fn law_charged_back(a: AccountView, x: Dec)
    requires
        a.wf(),
        x.wf(),
    ensures
        a.charged_back(x) is Some <==> Dec::in_range(a.held.units() - x.units())
            && Dec::in_range(a.total.units() - x.units()),
        a.charged_back(x) matches Some(b) ==> {
            &&& b.settles(
                a,
                a.available.units(),
                a.held.units() - x.units(),
                a.total.units() - x.units(),
                true,
            )
            &&& b.available == a.available
        },
{
    lemma_operands_settle(a, x);
}

/// What arithmetic does to each balance; a balance that stays is what it is.
proof fn lemma_operands_settle(a: AccountView, x: Dec)
    requires
        a.wf(),
        x.wf(),
    ensures
        a.available.settles(a.available.units()),
        a.held.settles(a.held.units()),
        a.total.settles(a.total.units()),
        forall|d: Dec|
            d == a.available || d == a.held || d == a.total ==> {
                &&& #[trigger] d.plus(x) is Some <==> Dec::in_range(d.units() + x.units())
                &&& d.plus(x) matches Some(c) ==> c.settles(d.units() + x.units())
            },
        forall|d: Dec|
            d == a.available || d == a.held || d == a.total ==> {
                &&& #[trigger] d.minus(x) is Some <==> Dec::in_range(d.units() - x.units())
                &&& d.minus(x) matches Some(c) ==> c.settles(d.units() - x.units())
            },
{
    crate::laws::amounts::law_arithmetic_settles(a.available, x);
    crate::laws::amounts::law_arithmetic_settles(a.held, x);
    crate::laws::amounts::law_arithmetic_settles(a.total, x);
    crate::laws::amounts::lemma_pow10_positive((28 - a.available.scale) as nat);
    crate::laws::amounts::lemma_pow10_positive((28 - a.held.scale) as nat);
    crate::laws::amounts::lemma_pow10_positive((28 - a.total.scale) as nat);
}

/// A deposit is refused exactly when its id was accepted before or its amount is negative, whatever
/// the account is, locked or not. Otherwise its amount is added to available and total, unless one
/// of them would go out of range.
pub proof fn law_ruling_on_a_deposit(l: Ledger, tx: TxView)
    requires
        tx.tx_type == TxType::Deposit,
        tx.amount.wf(),
        l.account(tx.client_id).wf(),
    ensures
        ({
            let a = l.account(tx.client_id);
            let x = tx.amount;
            let known = l.processed.contains(tx.tx_id);
            let ruling = l.ruling(tx);
            let fits = Dec::in_range(a.available.units() + x.units()) && Dec::in_range(
                a.total.units() + x.units(),
            );
            &&& ruling == Ruling::Refuse(ProcessorSoftFailures::AlreadyProcessed) <==> known
            &&& ruling == Ruling::Refuse(ProcessorSoftFailures::NegativeAmount) <==> !known
                && x.units() < 0
            &&& ruling is Refuse <==> known || x.units() < 0
            &&& ruling is Store <==> !known && x.units() >= 0 && fits
            &&& ruling is OutOfRange <==> !known && x.units() >= 0 && !fits
            &&& ruling matches Ruling::Store(b) ==> b.settles(
                a,
                a.available.units() + x.units(),
                a.held.units(),
                a.total.units() + x.units(),
                a.locked,
            )
        }),
{
    law_deposited(l.account(tx.client_id), tx.amount);
}

/// A withdrawal is refused exactly when its id was accepted before, the account is locked, its
/// amount is negative, or its amount exceeds the available funds: these can be withdrawn up to the
/// last of them. Otherwise its amount is taken from available and total, unless one of them would go
/// out of range. Of several reasons, the first in this order is given.
pub proof fn law_ruling_on_a_withdrawal(l: Ledger, tx: TxView)
    requires
        tx.tx_type == TxType::Withdrawal,
        tx.amount.wf(),
        l.account(tx.client_id).wf(),
    ensures
        ({
            let a = l.account(tx.client_id);
            let x = tx.amount;
            let known = l.processed.contains(tx.tx_id);
            let ruling = l.ruling(tx);
            let fits = Dec::in_range(a.available.units() - x.units()) && Dec::in_range(
                a.total.units() - x.units(),
            );
            let covered = !known && !a.locked && 0 <= x.units() <= a.available.units();
            &&& ruling == Ruling::Refuse(ProcessorSoftFailures::AlreadyProcessed) <==> known
            &&& ruling == Ruling::Refuse(ProcessorSoftFailures::AccountLocked) <==> !known
                && a.locked
            &&& ruling == Ruling::Refuse(ProcessorSoftFailures::NegativeAmount) <==> !known
                && !a.locked && x.units() < 0
            &&& ruling == Ruling::Refuse(ProcessorSoftFailures::InsufficientFunds) <==> !known
                && !a.locked && x.units() >= 0 && x.units() > a.available.units()
            &&& ruling is Refuse <==> !covered
            &&& ruling is Store <==> covered && fits
            &&& ruling is OutOfRange <==> covered && !fits
            &&& ruling matches Ruling::Store(b) ==> b.settles(
                a,
                a.available.units() - x.units(),
                a.held.units(),
                a.total.units() - x.units(),
                a.locked,
            )
        }),
{
    law_withdrawn(l.account(tx.client_id), tx.amount);
}

/// A dispute is refused exactly when its id names no active transaction, or one of another client,
/// or one that is no deposit. It is never refused on account of the balances: the amount of the
/// deposit moves from available to held even if it has been spent, and on a locked account too,
/// unless a balance would go out of range.
pub proof fn law_ruling_on_a_dispute(l: Ledger, tx: TxView)
    requires
        tx.tx_type == TxType::Dispute,
        l.account(tx.client_id).wf(),
        l.transactions.contains_key(tx.tx_id) ==> l.transactions[tx.tx_id].amount.wf(),
    ensures
        ({
            let a = l.account(tx.client_id);
            let found = l.transactions.contains_key(tx.tx_id);
            let t = l.transactions[tx.tx_id];
            let x = t.amount;
            let ruling = l.ruling(tx);
            let fits = Dec::in_range(a.available.units() - x.units())
                && Dec::in_range(a.held.units() + x.units());
            let in_order = found && t.client_id == tx.client_id && t.tx_type == TxType::Deposit;
            &&& ruling == Ruling::Refuse(ProcessorSoftFailures::DisputedTransactionNotFound)
                <==> !found
            &&& ruling == Ruling::Refuse(ProcessorSoftFailures::ClientIdMismatch) <==> found
                && t.client_id != tx.client_id
            &&& ruling == Ruling::Refuse(ProcessorSoftFailures::DisputeOnNonDeposit) <==> found
                && t.client_id == tx.client_id && t.tx_type != TxType::Deposit
            &&& ruling is Refuse <==> !in_order
            &&& ruling is Store <==> in_order && fits
            &&& ruling is OutOfRange <==> in_order && !fits
            &&& ruling matches Ruling::Store(b) ==> b.settles(
                a,
                a.available.units() - x.units(),
                a.held.units() + x.units(),
                a.total.units(),
                a.locked,
            )
        }),
{
    if l.transactions.contains_key(tx.tx_id) {
        law_disputed(l.account(tx.client_id), l.transactions[tx.tx_id].amount);
    }
}

/// A resolve is refused exactly when its id names no disputed transaction, or one of another client.
/// It is never refused on account of the balances: the amount of the transaction moves from held
/// back to available, on a locked account too, unless a balance would go out of range.
pub proof fn law_ruling_on_a_resolve(l: Ledger, tx: TxView)
    requires
        tx.tx_type == TxType::Resolve,
        l.account(tx.client_id).wf(),
        l.disputed.contains_key(tx.tx_id) ==> l.disputed[tx.tx_id].amount.wf(),
    ensures
        ({
            let a = l.account(tx.client_id);
            let found = l.disputed.contains_key(tx.tx_id);
            let t = l.disputed[tx.tx_id];
            let x = t.amount;
            let ruling = l.ruling(tx);
            let fits = Dec::in_range(a.available.units() + x.units())
                && Dec::in_range(a.held.units() - x.units());
            let in_order = found && t.client_id == tx.client_id;
            &&& ruling == Ruling::Refuse(ProcessorSoftFailures::DisputedTransactionNotFound)
                <==> !found
            &&& ruling == Ruling::Refuse(ProcessorSoftFailures::ClientIdMismatch) <==> found
                && t.client_id != tx.client_id
            &&& ruling is Refuse <==> !in_order
            &&& ruling is Store <==> in_order && fits
            &&& ruling is OutOfRange <==> in_order && !fits
            &&& ruling matches Ruling::Store(b) ==> b.settles(
                a,
                a.available.units() + x.units(),
                a.held.units() - x.units(),
                a.total.units(),
                a.locked,
            )
        }),
{
    if l.disputed.contains_key(tx.tx_id) {
        law_resolved(l.account(tx.client_id), l.disputed[tx.tx_id].amount);
    }
}

/// A chargeback is refused exactly when its id names no disputed transaction, or one of another
/// client. It is never refused on account of the balances: the amount of the transaction is taken
/// from held and total even if that leaves less than nothing, and the account is locked, unless a
/// balance would go out of range.
pub proof fn law_ruling_on_a_chargeback(l: Ledger, tx: TxView)
    requires
        tx.tx_type == TxType::Chargeback,
        l.account(tx.client_id).wf(),
        l.disputed.contains_key(tx.tx_id) ==> l.disputed[tx.tx_id].amount.wf(),
    ensures
        ({
            let a = l.account(tx.client_id);
            let found = l.disputed.contains_key(tx.tx_id);
            let t = l.disputed[tx.tx_id];
            let x = t.amount;
            let ruling = l.ruling(tx);
            let fits = Dec::in_range(a.held.units() - x.units())
                && Dec::in_range(a.total.units() - x.units());
            let in_order = found && t.client_id == tx.client_id;
            &&& ruling == Ruling::Refuse(ProcessorSoftFailures::DisputedTransactionNotFound)
                <==> !found
            &&& ruling == Ruling::Refuse(ProcessorSoftFailures::ClientIdMismatch) <==> found
                && t.client_id != tx.client_id
            &&& ruling is Refuse <==> !in_order
            &&& ruling is Store <==> in_order && fits
            &&& ruling is OutOfRange <==> in_order && !fits
            &&& ruling matches Ruling::Store(b) ==> b.settles(
                a,
                a.available.units(),
                a.held.units() - x.units(),
                a.total.units() - x.units(),
                true,
            )
        }),
{
    if l.disputed.contains_key(tx.tx_id) {
        law_charged_back(l.account(tx.client_id), l.disputed[tx.tx_id].amount);
    }
}

/// What an applied transaction leaves behind: its client has the account that the ruling says; a
/// deposit or withdrawal is active and its id accepted, a dispute has moved its transaction from the
/// active to the disputed ones, a resolve has moved it back, and a chargeback has taken it off the
/// record. Nothing else on record changes.
pub proof fn law_applied_transactions_are_recorded(l: Ledger, tx: TxView)
    requires
        l.keyed(),
        l.ruling(tx) is Store,
    ensures
        ({
            let id = tx.tx_id;
            let after = l.after(tx);
            &&& l.ruling(tx) == Ruling::Store(after.account(tx.client_id))
            &&& after.accounts.contains_key(tx.client_id)
            &&& tx.tx_type == TxType::Deposit || tx.tx_type == TxType::Withdrawal ==> {
                &&& after.transactions.contains_pair(id, tx)
                &&& after.processed.contains(id)
                &&& after.disputed.contains_key(id) == l.disputed.contains_key(id)
                &&& l.disputed.contains_key(id) ==> after.disputed[id] == l.disputed[id]
            }
            &&& tx.tx_type == TxType::Dispute ==> {
                &&& !after.transactions.contains_key(id)
                &&& after.disputed.contains_pair(id, l.transactions[id])
            }
            &&& tx.tx_type == TxType::Resolve ==> {
                &&& !after.disputed.contains_key(id)
                &&& after.transactions.contains_pair(id, l.disputed[id])
            }
            &&& tx.tx_type == TxType::Chargeback ==> {
                &&& !after.disputed.contains_key(id)
                &&& after.transactions.contains_key(id) == l.transactions.contains_key(id)
                &&& l.transactions.contains_key(id) ==> after.transactions[id]
                    == l.transactions[id]
            }
            &&& tx.tx_type != TxType::Deposit && tx.tx_type != TxType::Withdrawal
                ==> after.processed.contains(id) == l.processed.contains(id)
        }),
{
}

/// A client that a transaction names has an account from then on, unless the transaction is a
/// repetition; and no other client gets or loses one.
pub proof fn law_clients_on_record(l: Ledger, tx: TxView, client_id: u16)
    requires
        l.keyed(),
    ensures
        l.after(tx).accounts.contains_key(client_id) <==> {
            ||| l.accounts.contains_key(client_id)
            ||| client_id == tx.client_id && l.ruling(tx) != Ruling::Refuse(
                ProcessorSoftFailures::AlreadyProcessed,
            )
        },
{
}

/// Right after a dispute that rounded nothing, the chargeback of the same client and id is applied:
/// whatever is left of the money. That takes an account whose total is what is available and what is
/// held together, and whose held funds are not negative.
pub proof fn law_chargeback_follows_dispute(l: Ledger, dispute: TxView, chargeback: TxView)
    requires
        l.consistent(),
        l.account(dispute.client_id).balanced(),
        l.account(dispute.client_id).held.units() >= 0,
        dispute.tx_type == TxType::Dispute,
        dispute.amount.wf(),
        l.ruling(dispute) is Store,
        l.applies_exactly(dispute),
        chargeback.tx_type == TxType::Chargeback,
        chargeback.tx_id == dispute.tx_id,
        chargeback.client_id == dispute.client_id,
    ensures
        l.after(dispute).ruling(chargeback) is Store,
        l.after(dispute).after(chargeback).account(dispute.client_id).locked,
        l.after(dispute).after(chargeback).account(dispute.client_id).held.units() == l.account(
            dispute.client_id,
        ).held.units(),
{
    let m = l.after(dispute);
    let before = l.account(dispute.client_id);
    let between = m.account(dispute.client_id);
    let x = l.transactions[dispute.tx_id].amount;
    crate::laws::ledgers::law_consistency_is_kept(l, dispute);
    crate::laws::balances::law_balances_move_by_the_amount(l, dispute);
    law_applied_transactions_are_recorded(l, dispute);
    assert(before.wf());
    assert(between.wf());
    assert(m.disputed[dispute.tx_id] == l.transactions[dispute.tx_id]);
    law_ruling_on_a_chargeback(m, chargeback);
    lemma_amounts_are_in_range(between.available);
    lemma_amounts_are_in_range(between.total);
    lemma_amounts_are_in_range(before.held);
    assert(between.held.units() - x.units() == before.held.units());
    law_applied_transactions_are_recorded(m, chargeback);
}

/// What an amount holds is in range.
proof fn lemma_amounts_are_in_range(a: Dec)
    requires
        a.wf(),
    ensures
        Dec::in_range(a.units()),
{
    let zero = Dec::zero();
    crate::laws::amounts::law_arithmetic_settles(a, zero);
}

} // verus!
