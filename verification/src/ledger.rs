//! The rules of the engine, as mathematics.
//!
//! A [`Ledger`] is everything a storage remembers. What a transaction does to it is said by
//! [`Ledger::ruling`] and [`Ledger::after`]; the code in `processor` is verified to do that.

use crate::domain::{AccountView, ProcessorSoftFailures, TxType, TxView};
use vstd::prelude::*;

verus! {

/// What becomes of a transaction.
pub enum Ruling {
    /// It is refused and no balance changes.
    Refuse(ProcessorSoftFailures),
    /// The account of its client becomes this one.
    Store(AccountView),
    /// It is in order, but a balance would go out of the range of amounts.
    OutOfRange,
}

/// Why `tx` is refused, if it is. `processed` says whether a deposit or withdrawal with its id
/// was accepted before, `account` is the account of its client, and `target` the transaction
/// that a dispute, resolve or chargeback refers to, if it was found.
pub open spec fn refusal(
    tx: TxView,
    processed: bool,
    account: AccountView,
    target: Option<TxView>,
) -> Option<ProcessorSoftFailures> {
    match tx.tx_type {
        TxType::Deposit => if processed {
            Some(ProcessorSoftFailures::AlreadyProcessed)
        } else if tx.amount.units() < 0 {
            Some(ProcessorSoftFailures::NegativeAmount)
        } else {
            None
        },
        TxType::Withdrawal => if processed {
            Some(ProcessorSoftFailures::AlreadyProcessed)
        } else if account.locked {
            Some(ProcessorSoftFailures::AccountLocked)
        } else if tx.amount.units() < 0 {
            Some(ProcessorSoftFailures::NegativeAmount)
        } else if account.available.units() < tx.amount.units() {
            Some(ProcessorSoftFailures::InsufficientFunds)
        } else {
            None
        },
        TxType::Dispute | TxType::Resolve | TxType::Chargeback => match target {
            None => Some(ProcessorSoftFailures::DisputedTransactionNotFound),
            Some(t) => if t.client_id != tx.client_id {
                Some(ProcessorSoftFailures::ClientIdMismatch)
            } else if tx.tx_type is Dispute && !(t.tx_type is Deposit) {
                Some(ProcessorSoftFailures::DisputeOnNonDeposit)
            } else {
                None
            },
        },
    }
}

/// The account that `tx` leads to when it is not refused; `None` when a balance would go out of
/// range.
pub open spec fn posting(tx: TxView, account: AccountView, target: Option<TxView>) -> Option<
    AccountView,
> {
    match tx.tx_type {
        TxType::Deposit => account.deposited(tx.amount),
        TxType::Withdrawal => account.withdrawn(tx.amount),
        TxType::Dispute => account.disputed(target->0.amount),
        TxType::Resolve => account.resolved(target->0.amount),
        TxType::Chargeback => account.charged_back(target->0.amount),
    }
}

/// What becomes of `tx`, given what the storage knows that bears on it.
pub open spec fn ruling(
    tx: TxView,
    processed: bool,
    account: AccountView,
    target: Option<TxView>,
) -> Ruling {
    match refusal(tx, processed, account, target) {
        Some(reason) => Ruling::Refuse(reason),
        None => match posting(tx, account, target) {
            Some(updated) => Ruling::Store(updated),
            None => Ruling::OutOfRange,
        },
    }
}

/// Everything a storage remembers.
#[verifier::ext_equal]
pub struct Ledger {
    /// The accounts, by client.
    pub accounts: Map<u16, AccountView>,
    /// The deposits and withdrawals that are not under dispute, by transaction id.
    pub transactions: Map<u32, TxView>,
    /// The transactions under dispute, by transaction id.
    pub disputed: Map<u32, TxView>,
    /// The ids of all deposits and withdrawals ever accepted.
    pub processed: Set<u32>,
}

impl Ledger {
    /// The ledger in which nothing has happened.
    pub open spec fn empty() -> Ledger {
        Ledger {
            accounts: Map::empty(),
            transactions: Map::empty(),
            disputed: Map::empty(),
            processed: Set::empty(),
        }
    }

    /// The account of a client; a fresh one when the client is not known yet.
    pub open spec fn account(self, client_id: u16) -> AccountView {
        if self.accounts.contains_key(client_id) {
            self.accounts[client_id]
        } else {
            AccountView::fresh(client_id)
        }
    }

    /// This ledger once the client has an account.
    pub open spec fn opened(self, client_id: u16) -> Ledger {
        Ledger { accounts: self.accounts.insert(client_id, self.account(client_id)), ..self }
    }

    /// This ledger with `account` in place of the account of the same client.
    pub open spec fn with_account(self, account: AccountView) -> Ledger {
        Ledger { accounts: self.accounts.insert(account.client_id, account), ..self }
    }

    /// This ledger with a deposit or withdrawal added to the active transactions.
    pub open spec fn with_transaction(self, tx: TxView) -> Ledger {
        Ledger {
            transactions: self.transactions.insert(tx.tx_id, tx),
            processed: self.processed.insert(tx.tx_id),
            ..self
        }
    }

    /// This ledger with an active transaction put under dispute.
    pub open spec fn with_dispute(self, tx_id: u32) -> Ledger {
        Ledger {
            transactions: self.transactions.remove(tx_id),
            disputed: self.disputed.insert(tx_id, self.transactions[tx_id]),
            ..self
        }
    }

    /// This ledger with a disputed transaction active again.
    pub open spec fn without_dispute(self, tx_id: u32) -> Ledger {
        Ledger {
            transactions: self.transactions.insert(tx_id, self.disputed[tx_id]),
            disputed: self.disputed.remove(tx_id),
            ..self
        }
    }

    /// This ledger with a disputed transaction forgotten.
    pub open spec fn with_disputed_discarded(self, tx_id: u32) -> Ledger {
        Ledger { disputed: self.disputed.remove(tx_id), ..self }
    }

    /// Whether `listing` shows each account of this ledger exactly once.
    pub open spec fn lists(self, listing: Seq<AccountView>) -> bool {
        exists|clients: Seq<u16>| #[trigger]
            clients.no_duplicates() && clients.to_set() == self.accounts.dom() && listing
                == clients.map_values(|c: u16| self.accounts[c])
    }

    /// The transaction that a lifecycle event refers to: a dispute is about an active one, a
    /// resolve and a chargeback are about a disputed one.
    pub open spec fn target(self, tx: TxView) -> Option<TxView> {
        match tx.tx_type {
            TxType::Dispute => self.transactions.get(tx.tx_id),
            TxType::Resolve | TxType::Chargeback => self.disputed.get(tx.tx_id),
            _ => None,
        }
    }

    /// What becomes of `tx`.
    pub open spec fn ruling(self, tx: TxView) -> Ruling {
        ruling(
            tx,
            self.processed.contains(tx.tx_id),
            self.account(tx.client_id),
            self.target(tx),
        )
    }

    /// This ledger once `tx` has been accepted and has led to `account`.
    pub open spec fn posted(self, tx: TxView, account: AccountView) -> Ledger {
        let l = self.with_account(account);
        match tx.tx_type {
            TxType::Deposit | TxType::Withdrawal => l.with_transaction(tx),
            TxType::Dispute => l.with_dispute(tx.tx_id),
            TxType::Resolve => l.without_dispute(tx.tx_id),
            TxType::Chargeback => l.with_disputed_discarded(tx.tx_id),
        }
    }

    /// This ledger once `tx` has been dealt with as `ruling` says. A client that a transaction
    /// names has an account from then on, even when the transaction is refused; only a repeated
    /// deposit or withdrawal leaves no trace at all.
    pub open spec fn enacted(self, tx: TxView, ruling: Ruling) -> Ledger {
        match ruling {
            Ruling::Refuse(ProcessorSoftFailures::AlreadyProcessed) => self,
            Ruling::Refuse(_) | Ruling::OutOfRange => self.opened(tx.client_id),
            Ruling::Store(account) => self.opened(tx.client_id).posted(tx, account),
        }
    }

    /// This ledger once `tx` has been processed.
    pub open spec fn after(self, tx: TxView) -> Ledger {
        self.enacted(tx, self.ruling(tx))
    }

    /// This ledger once a series of transactions has been processed, in order.
    pub open spec fn after_all(self, txs: Seq<TxView>) -> Ledger
        decreases txs.len(),
    {
        if txs.len() == 0 {
            self
        } else {
            self.after_all(txs.drop_last()).after(txs.last())
        }
    }
}

} // verus!
