//! Laws of the ledger: what no series of transactions can break.

use crate::domain::{AccountView, ProcessorSoftFailures, TxView};
use crate::ledger::{Ledger, Ruling};
use vstd::prelude::*;

verus! {

impl AccountView {
    /// Whether amounts can hold the balances.
    pub open spec fn wf(self) -> bool {
        self.available.wf() && self.held.wf() && self.total.wf()
    }
}

impl Ledger {
    /// Whether amounts can hold everything in this ledger. It is so of every storage.
    pub open spec fn wf(self) -> bool {
        &&& forall|c: u16| #[trigger] self.accounts.contains_key(c) ==> self.accounts[c].wf()
        &&& forall|id: u32| #[trigger]
            self.transactions.contains_key(id) ==> self.transactions[id].amount.wf()
        &&& forall|id: u32| #[trigger]
            self.disputed.contains_key(id) ==> self.disputed[id].amount.wf()
    }

    /// Whether every account stands under the id of its client.
    pub open spec fn keyed(self) -> bool {
        forall|c: u16| #[trigger]
            self.accounts.contains_key(c) ==> self.accounts[c].client_id == c
    }

    /// Whether every transaction on record has been accepted, and none is both active and disputed.
    pub open spec fn filed(self) -> bool {
        &&& forall|id: u32| #[trigger]
            self.transactions.contains_key(id) ==> self.processed.contains(id)
                && !self.disputed.contains_key(id)
        &&& forall|id: u32| #[trigger]
            self.disputed.contains_key(id) ==> self.processed.contains(id)
    }

    /// What every ledger satisfies that transactions have led to:
    /// - every account and every transaction stands under its own id;
    /// - no transaction is both active and disputed;
    /// - what is active or disputed has been accepted;
    /// - only deposits and withdrawals are active, and only deposits are disputed;
    /// - no amount on record is negative.
    pub open spec fn consistent(self) -> bool {
        &&& self.wf()
        &&& self.keyed()
        &&& self.accounts.dom().finite()
        &&& self.transactions.dom().finite()
        &&& self.disputed.dom().finite()
        &&& forall|id: u32| #[trigger]
            self.transactions.contains_key(id) ==> {
                &&& self.transactions[id].tx_id == id
                &&& self.transactions[id].tx_type.is_monetary()
                &&& self.transactions[id].amount.units() >= 0
                &&& self.processed.contains(id)
                &&& !self.disputed.contains_key(id)
            }
        &&& forall|id: u32| #[trigger]
            self.disputed.contains_key(id) ==> {
                &&& self.disputed[id].tx_id == id
                &&& self.disputed[id].tx_type is Deposit
                &&& self.disputed[id].amount.units() >= 0
                &&& self.processed.contains(id)
            }
    }
}

/// The account that `posting` leads to belongs to the same client and can be held.
proof fn lemma_posting(tx: TxView, account: AccountView, target: Option<TxView>)
    requires
        account.wf(),
        tx.amount.wf(),
        target matches Some(t) ==> t.amount.wf(),
        target is None ==> tx.tx_type.is_monetary(),
    ensures
        crate::ledger::posting(tx, account, target) matches Some(a) ==> {
            &&& a.wf()
            &&& a.client_id == account.client_id
            &&& a.locked == (account.locked || tx.tx_type is Chargeback)
        },
{
    let x = if tx.tx_type.is_monetary() {
        tx.amount
    } else {
        target->0.amount
    };
    crate::laws::amounts::law_rounding_error_is_bounded(account.available, x);
    crate::laws::amounts::law_rounding_error_is_bounded(account.held, x);
    crate::laws::amounts::law_rounding_error_is_bounded(account.total, x);
}

/// An empty ledger is consistent.
pub proof fn law_empty_ledger_is_consistent()
    ensures
        Ledger::empty().consistent(),
{
}

/// No transaction breaks the consistency of a ledger.
pub proof fn law_consistency_is_kept(l: Ledger, tx: TxView)
    requires
        l.consistent(),
        tx.amount.wf(),
    ensures
        l.after(tx).consistent(),
{
    let account = l.account(tx.client_id);
    let target = l.target(tx);
    if let Ruling::Store(a) = l.ruling(tx) {
        lemma_posting(tx, account, target);
    }
}

/// Every ledger that a series of transactions leads to from the start is consistent.
pub proof fn law_every_history_is_consistent(txs: Seq<TxView>)
    requires
        forall|i: int| 0 <= i < txs.len() ==> (#[trigger] txs[i]).amount.wf(),
    ensures
        Ledger::empty().after_all(txs).consistent(),
    decreases txs.len(),
{
    if txs.len() > 0 {
        law_every_history_is_consistent(txs.drop_last());
        law_consistency_is_kept(Ledger::empty().after_all(txs.drop_last()), txs.last());
    }
}

/// A transaction that is not applied changes nothing, but that its client has an account
/// afterwards; a repeated deposit or withdrawal does not even do that.
pub proof fn law_soft_failure_changes_no_balance(l: Ledger, tx: TxView)
    requires
        !(l.ruling(tx) is Store),
    ensures
        l.after(tx).transactions == l.transactions,
        l.after(tx).disputed == l.disputed,
        l.after(tx).processed == l.processed,
        forall|c: u16| l.after(tx).account(c) == l.account(c),
        l.accounts.contains_key(tx.client_id) ==> l.after(tx) == l,
        l.ruling(tx) == Ruling::Refuse(ProcessorSoftFailures::AlreadyProcessed) ==> l.after(tx)
            == l,
{
    if l.accounts.contains_key(tx.client_id) {
        assert(l.after(tx) =~= l);
    }
}

/// A transaction changes no account but that of its own client.
pub proof fn law_other_accounts_are_untouched(l: Ledger, tx: TxView, client_id: u16)
    requires
        l.keyed(),
        client_id != tx.client_id,
    ensures
        l.after(tx).accounts.contains_key(client_id) == l.accounts.contains_key(client_id),
        l.after(tx).account(client_id) == l.account(client_id),
        l.after(tx).keyed(),
{
}

/// A transaction changes no record of a transaction with another id.
pub proof fn law_other_transactions_are_untouched(l: Ledger, tx: TxView, tx_id: u32)
    requires
        tx_id != tx.tx_id,
    ensures
        l.after(tx).transactions.get(tx_id) == l.transactions.get(tx_id),
        l.after(tx).disputed.get(tx_id) == l.disputed.get(tx_id),
        l.after(tx).processed.contains(tx_id) == l.processed.contains(tx_id),
{
}

/// Accounts stand under the ids of their clients and transactions are in their places, whatever
/// happens.
pub proof fn lemma_keyed_history(l: Ledger, txs: Seq<TxView>)
    requires
        l.keyed(),
    ensures
        l.after_all(txs).keyed(),
        l.filed() ==> l.after_all(txs).filed(),
    decreases txs.len(),
{
    if txs.len() > 0 {
        lemma_keyed_history(l, txs.drop_last());
    }
}

/// A locked account stays locked, whatever is processed.
pub proof fn law_locked_accounts_stay_locked(l: Ledger, txs: Seq<TxView>, client_id: u16)
    requires
        l.keyed(),
        l.account(client_id).locked,
    ensures
        l.after_all(txs).account(client_id).locked,
    decreases txs.len(),
{
    if txs.len() > 0 {
        law_locked_accounts_stay_locked(l, txs.drop_last(), client_id);
        lemma_keyed_history(l, txs.drop_last());
    }
}

/// Only a chargeback that is applied locks an account, that of its own client; and it always does.
pub proof fn law_only_a_chargeback_locks(l: Ledger, tx: TxView, client_id: u16)
    requires
        l.keyed(),
    ensures
        l.after(tx).account(client_id).locked <==> {
            ||| l.account(client_id).locked
            ||| tx.tx_type is Chargeback && l.ruling(tx) is Store && client_id == tx.client_id
        },
{
}

/// A locked account lets no withdrawal through.
pub proof fn law_locked_account_refuses_withdrawals(l: Ledger, tx: TxView)
    requires
        tx.tx_type is Withdrawal,
        l.account(tx.client_id).locked,
    ensures
        l.ruling(tx) == Ruling::Refuse(ProcessorSoftFailures::AccountLocked) || l.ruling(tx)
            == Ruling::Refuse(ProcessorSoftFailures::AlreadyProcessed),
        forall|c: u16| l.after(tx).account(c) == l.account(c),
{
}

/// Deposits, disputes, resolves and chargebacks are processed on a locked account as on any other:
/// with the same ruling, and with the same balances.
pub proof fn law_lock_stops_only_withdrawals(
    tx: TxView,
    processed: bool,
    account: AccountView,
    target: Option<TxView>,
)
    requires
        !(tx.tx_type is Withdrawal),
    ensures
        ({
            let locked = AccountView { locked: true, ..account };
            match crate::ledger::ruling(tx, processed, account, target) {
                Ruling::Store(a) => crate::ledger::ruling(tx, processed, locked, target)
                    == Ruling::Store(AccountView { locked: true, ..a }),
                r => crate::ledger::ruling(tx, processed, locked, target) == r,
            }
        }),
{
}

/// An applied withdrawal was not negative, and leaves available funds that are not negative.
pub proof fn law_withdrawal_never_overdraws(l: Ledger, tx: TxView)
    requires
        l.consistent(),
        tx.amount.wf(),
        tx.tx_type is Withdrawal,
        l.ruling(tx) is Store,
    ensures
        tx.amount.units() >= 0,
        l.after(tx).account(tx.client_id).available.units() >= 0,
{
    crate::laws::amounts::law_rounding_error_is_bounded(l.account(tx.client_id).available, tx.amount);
}

/// Ids of accepted deposits and withdrawals are never forgotten.
pub proof fn law_processed_ids_are_kept(l: Ledger, txs: Seq<TxView>, tx_id: u32)
    requires
        l.processed.contains(tx_id),
    ensures
        l.after_all(txs).processed.contains(tx_id),
    decreases txs.len(),
{
    if txs.len() > 0 {
        law_processed_ids_are_kept(l, txs.drop_last(), tx_id);
    }
}

/// Deposits and withdrawals are processed once: when one has been applied, any later one with the
/// same id is refused as already processed, whatever happened in between, and changes nothing.
pub proof fn law_deposits_and_withdrawals_are_idempotent(
    l: Ledger,
    tx: TxView,
    between: Seq<TxView>,
    again: TxView,
)
    requires
        tx.tx_type.is_monetary(),
        l.ruling(tx) is Store,
        again.tx_type.is_monetary(),
        again.tx_id == tx.tx_id,
    ensures
        l.after(tx).after_all(between).ruling(again) == Ruling::Refuse(
            ProcessorSoftFailures::AlreadyProcessed,
        ),
        l.after(tx).after_all(between).after(again) == l.after(tx).after_all(between),
{
    law_processed_ids_are_kept(l.after(tx), between, tx.tx_id);
}

/// Disputes, resolves and chargebacks are processed once: right after one has been applied, the
/// same event finds nothing to act on, and changes nothing.
pub proof fn law_lifecycle_events_are_idempotent(l: Ledger, tx: TxView)
    requires
        !tx.tx_type.is_monetary(),
        l.keyed(),
        l.ruling(tx) is Store,
    ensures
        l.after(tx).ruling(tx) == Ruling::Refuse(
            ProcessorSoftFailures::DisputedTransactionNotFound,
        ),
        l.after(tx).after(tx) == l.after(tx),
{
    assert(l.after(tx).after(tx) =~= l.after(tx));
}

/// Whether a transaction was accepted once and is neither active nor disputed any more.
pub open spec fn closed_for_good(l: Ledger, tx_id: u32) -> bool {
    &&& l.processed.contains(tx_id)
    &&& !l.transactions.contains_key(tx_id)
    &&& !l.disputed.contains_key(tx_id)
}

proof fn lemma_closed_stays_closed(l: Ledger, txs: Seq<TxView>, tx_id: u32)
    requires
        closed_for_good(l, tx_id),
    ensures
        closed_for_good(l.after_all(txs), tx_id),
    decreases txs.len(),
{
    if txs.len() > 0 {
        lemma_closed_stays_closed(l, txs.drop_last(), tx_id);
    }
}

/// A chargeback is final: after it, whatever happened in between, no event that names the same
/// transaction is applied.
pub proof fn law_chargeback_is_final(l: Ledger, tx: TxView, between: Seq<TxView>, later: TxView)
    requires
        l.consistent(),
        tx.tx_type is Chargeback,
        l.ruling(tx) is Store,
        later.tx_id == tx.tx_id,
    ensures
        l.after(tx).after_all(between).ruling(later) == Ruling::Refuse(
            if later.tx_type.is_monetary() {
                ProcessorSoftFailures::AlreadyProcessed
            } else {
                ProcessorSoftFailures::DisputedTransactionNotFound
            },
        ),
{
    assert(closed_for_good(l.after(tx), tx.tx_id));
    lemma_closed_stays_closed(l.after(tx), between, tx.tx_id);
}

/// A lifecycle event is refused on a transaction of another client, and changes no balance.
pub proof fn law_only_the_owner_disputes(l: Ledger, tx: TxView)
    requires
        !tx.tx_type.is_monetary(),
        l.target(tx) matches Some(t) && t.client_id != tx.client_id,
    ensures
        l.ruling(tx) == Ruling::Refuse(ProcessorSoftFailures::ClientIdMismatch),
        forall|c: u16| l.after(tx).account(c) == l.account(c),
        l.after(tx).transactions == l.transactions,
        l.after(tx).disputed == l.disputed,
{
}

/// A withdrawal is never put under dispute.
pub proof fn law_withdrawals_are_not_disputed(l: Ledger, tx: TxView)
    requires
        tx.tx_type is Dispute,
        l.target(tx) matches Some(t) && t.tx_type is Withdrawal,
    ensures
        l.ruling(tx) is Refuse,
        l.after(tx).transactions == l.transactions,
        l.after(tx).disputed == l.disputed,
{
}

/// What is written to a ledger is what is read back.
pub proof fn law_writes_are_read_back(l: Ledger, account: AccountView, tx: TxView, tx_id: u32)
    ensures
        l.with_account(account).account(account.client_id) == account,
        l.opened(account.client_id).account(account.client_id) == l.account(account.client_id),
        l.with_transaction(tx).transactions.get(tx.tx_id) == Some(tx),
        l.with_transaction(tx).processed.contains(tx.tx_id),
        l.with_dispute(tx_id).transactions.get(tx_id) is None,
        l.with_dispute(tx_id).disputed.get(tx_id) == Some(l.transactions[tx_id]),
        l.without_dispute(tx_id).disputed.get(tx_id) is None,
        l.without_dispute(tx_id).transactions.get(tx_id) == Some(l.disputed[tx_id]),
        l.with_disputed_discarded(tx_id).disputed.get(tx_id) is None,
{
}

/// What is not written stays: another client's account, the records of other ids, and whatever a
/// write is not about.
pub proof fn law_writes_touch_nothing_else(
    l: Ledger,
    account: AccountView,
    tx: TxView,
    tx_id: u32,
    other_client: u16,
    other_id: u32,
)
    ensures
        ({
            let w = l.with_account(account);
            &&& w.transactions == l.transactions && w.disputed == l.disputed && w.processed
                == l.processed
            &&& w.accounts.dom() == l.accounts.dom().insert(account.client_id)
            &&& other_client != account.client_id ==> w.account(other_client) == l.account(
                other_client,
            )
        }),
        ({
            let w = l.opened(account.client_id);
            &&& w.transactions == l.transactions && w.disputed == l.disputed && w.processed
                == l.processed
            &&& w.accounts.dom() == l.accounts.dom().insert(account.client_id)
            &&& w.account(other_client) == l.account(other_client)
        }),
        ({
            let w = l.with_transaction(tx);
            &&& w.accounts == l.accounts && w.disputed == l.disputed
            &&& other_id != tx.tx_id ==> w.transactions.get(other_id) == l.transactions.get(
                other_id,
            )
            &&& other_id != tx.tx_id ==> w.processed.contains(other_id) == l.processed.contains(
                other_id,
            )
        }),
        ({
            let w = l.with_dispute(tx_id);
            &&& w.accounts == l.accounts && w.processed == l.processed
            &&& other_id != tx_id ==> w.transactions.get(other_id) == l.transactions.get(other_id)
            &&& other_id != tx_id ==> w.disputed.get(other_id) == l.disputed.get(other_id)
        }),
        ({
            let w = l.without_dispute(tx_id);
            &&& w.accounts == l.accounts && w.processed == l.processed
            &&& other_id != tx_id ==> w.transactions.get(other_id) == l.transactions.get(other_id)
            &&& other_id != tx_id ==> w.disputed.get(other_id) == l.disputed.get(other_id)
        }),
        ({
            let w = l.with_disputed_discarded(tx_id);
            &&& w.accounts == l.accounts && w.processed == l.processed && w.transactions
                == l.transactions
            &&& other_id != tx_id ==> w.disputed.get(other_id) == l.disputed.get(other_id)
        }),
{
    assert(l.with_account(account).accounts.dom() =~= l.accounts.dom().insert(account.client_id));
    assert(l.opened(account.client_id).accounts.dom() =~= l.accounts.dom().insert(
        account.client_id,
    ));
}

/// In an empty ledger there is no account, no transaction and no accepted id.
pub proof fn law_an_empty_ledger_holds_nothing(client_id: u16, tx_id: u32)
    ensures
        !Ledger::empty().accounts.contains_key(client_id),
        !Ledger::empty().transactions.contains_key(tx_id),
        !Ledger::empty().disputed.contains_key(tx_id),
        !Ledger::empty().processed.contains(tx_id),
{
}

/// A listing shows every account and nothing else, and as many as there are; where every account
/// stands under the id of its client, no client is shown twice.
pub proof fn law_listings_show_every_account_once(l: Ledger, listing: Seq<AccountView>)
    requires
        l.lists(listing),
    ensures
        listing.len() == l.accounts.dom().len(),
        forall|c: u16| #[trigger] l.accounts.contains_key(c) ==> listing.contains(l.accounts[c]),
        forall|i: int| 0 <= i < listing.len() ==> l.accounts.contains_value(#[trigger] listing[i]),
        l.keyed() ==> forall|i: int, j: int|
            0 <= i < j < listing.len() ==> (#[trigger] listing[i]).client_id != (
            #[trigger] listing[j]).client_id,
{
    let clients = choose|clients: Seq<u16>| #[trigger]
        clients.no_duplicates() && clients.to_set() == l.accounts.dom() && listing
            == clients.map_values(|c: u16| l.accounts[c]);
    clients.unique_seq_to_set();
    assert forall|i: int| 0 <= i < listing.len() implies l.accounts.contains_key(clients[i])
        && l.accounts[clients[i]] == #[trigger] listing[i] by {
        assert(clients.to_set().contains(clients[i]));
    }
    assert forall|c: u16| #[trigger] l.accounts.contains_key(c) implies listing.contains(
        l.accounts[c],
    ) by {
        assert(clients.to_set().contains(c));
        let i = choose|i: int| 0 <= i < clients.len() && clients[i] == c;
        assert(listing[i] == l.accounts[c]);
    }
}

/// Moving a transaction to the disputed ones and back changes nothing.
pub proof fn law_transfers_undo_each_other(l: Ledger, tx_id: u32)
    ensures
        l.transactions.contains_key(tx_id) && !l.disputed.contains_key(tx_id) ==> l.with_dispute(
            tx_id,
        ).without_dispute(tx_id) == l,
        l.disputed.contains_key(tx_id) && !l.transactions.contains_key(tx_id)
            ==> l.without_dispute(tx_id).with_dispute(tx_id) == l,
{
    if l.transactions.contains_key(tx_id) && !l.disputed.contains_key(tx_id) {
        assert(l.with_dispute(tx_id).without_dispute(tx_id) =~= l);
    }
    if l.disputed.contains_key(tx_id) && !l.transactions.contains_key(tx_id) {
        assert(l.without_dispute(tx_id).with_dispute(tx_id) =~= l);
    }
}

/// Different soft failures are logged under different labels.
pub proof fn law_labels_tell_failures_apart(a: ProcessorSoftFailures, b: ProcessorSoftFailures)
    ensures
        a.label() == b.label() ==> a == b,
{
    reveal_strlit("already_processed");
    reveal_strlit("negative_amount");
    reveal_strlit("insufficient_funds");
    reveal_strlit("account_locked");
    reveal_strlit("disputed_transaction_not_found");
    reveal_strlit("dispute_on_non_deposit");
    reveal_strlit("client_id_mismatch");
    // No two labels agree in both their lengths and their first characters.
    if a.label() == b.label() {
        assert(a.label().len() == b.label().len());
        assert(a.label()[0] == b.label()[0]);
    }
}

} // verus!
