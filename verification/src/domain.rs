//! Domain model.
//!
//! The entities the system reasons about: transactions arriving from a source, the per-client
//! account state they change, and the vocabulary of soft failures that classifies the outcomes
//! that are not faults.

use crate::amount::{Amount, Dec};
use vstd::prelude::*;

verus! {

/// Soft failures the processor can encounter and continue from. These are expected business
/// outcomes: malformed input, disputes on transactions that are no deposits, and so on.
#[derive(Debug, Clone, Copy, PartialEq, Eq, Structural)]
pub enum ProcessorSoftFailures {
    /// The id of a deposit or withdrawal has been ingested before.
    AlreadyProcessed,
    /// A deposit or withdrawal arrived with a negative amount.
    NegativeAmount,
    /// The amount of a withdrawal exceeds the available funds.
    InsufficientFunds,
    /// A withdrawal targeted a locked account.
    AccountLocked,
    /// A lifecycle event (dispute, resolve, chargeback) named a transaction that is not
    /// currently active, or not currently disputed.
    DisputedTransactionNotFound,
    /// A dispute named a transaction that is no deposit.
    DisputeOnNonDeposit,
    /// A lifecycle event named a transaction that belongs to a different client.
    ClientIdMismatch,
}

impl ProcessorSoftFailures {
    /// The label under which this failure is logged.
    pub open spec fn label(self) -> Seq<char> {
        match self {
            ProcessorSoftFailures::AlreadyProcessed => "already_processed"@,
            ProcessorSoftFailures::NegativeAmount => "negative_amount"@,
            ProcessorSoftFailures::InsufficientFunds => "insufficient_funds"@,
            ProcessorSoftFailures::AccountLocked => "account_locked"@,
            ProcessorSoftFailures::DisputedTransactionNotFound => "disputed_transaction_not_found"@,
            ProcessorSoftFailures::DisputeOnNonDeposit => "dispute_on_non_deposit"@,
            ProcessorSoftFailures::ClientIdMismatch => "client_id_mismatch"@,
        }
    }

    /// The label under which this failure is logged.
    pub fn as_str(self) -> (r: &'static str)
        ensures
            r@ == self.label(),
    {
        match self {
            ProcessorSoftFailures::AlreadyProcessed => "already_processed",
            ProcessorSoftFailures::NegativeAmount => "negative_amount",
            ProcessorSoftFailures::InsufficientFunds => "insufficient_funds",
            ProcessorSoftFailures::AccountLocked => "account_locked",
            ProcessorSoftFailures::DisputedTransactionNotFound => "disputed_transaction_not_found",
            ProcessorSoftFailures::DisputeOnNonDeposit => "dispute_on_non_deposit",
            ProcessorSoftFailures::ClientIdMismatch => "client_id_mismatch",
        }
    }
}

/// Type of a transaction coming in from a source.
#[derive(Debug, Clone, Copy, PartialEq, Eq, Structural)]
pub enum TxType {
    Deposit,
    Withdrawal,
    Dispute,
    Resolve,
    Chargeback,
}

impl TxType {
    /// Whether a transaction of this type carries money of its own: only a deposit and a
    /// withdrawal do. The others refer to an earlier transaction.
    pub open spec fn is_monetary(self) -> bool {
        self is Deposit || self is Withdrawal
    }

    /// The type that goes by this name, if there is one.
    pub open spec fn named(name: Seq<char>) -> Option<TxType> {
        if name == "deposit"@ {
            Some(TxType::Deposit)
        } else if name == "withdrawal"@ {
            Some(TxType::Withdrawal)
        } else if name == "dispute"@ {
            Some(TxType::Dispute)
        } else if name == "resolve"@ {
            Some(TxType::Resolve)
        } else if name == "chargeback"@ {
            Some(TxType::Chargeback)
        } else {
            None
        }
    }

    /// The type that goes by this name, if there is one. Names are in lower case.
    pub fn from_name(name: &str) -> (r: Option<TxType>)
        ensures
            r == TxType::named(name@),
    {
        let name = name.to_owned();
        if name == "deposit".to_owned() {
            Some(TxType::Deposit)
        } else if name == "withdrawal".to_owned() {
            Some(TxType::Withdrawal)
        } else if name == "dispute".to_owned() {
            Some(TxType::Dispute)
        } else if name == "resolve".to_owned() {
            Some(TxType::Resolve)
        } else if name == "chargeback".to_owned() {
            Some(TxType::Chargeback)
        } else {
            None
        }
    }
}

/// A transaction as it is routed and processed.
#[derive(Debug, Clone, Copy)]
pub struct Transaction {
    pub tx_type: TxType,
    pub client_id: u16,
    pub tx_id: u32,
    pub amount: Amount,
}

/// What a [`Transaction`] says.
pub struct TxView {
    pub tx_type: TxType,
    pub client_id: u16,
    pub tx_id: u32,
    pub amount: Dec,
}

impl View for Transaction {
    type V = TxView;

    open spec fn view(&self) -> TxView {
        TxView {
            tx_type: self.tx_type,
            client_id: self.client_id,
            tx_id: self.tx_id,
            amount: self.amount@,
        }
    }
}

/// State of a client's account.
#[derive(Debug, Clone, Copy)]
pub struct Account {
    pub client_id: u16,
    pub available: Amount,
    pub held: Amount,
    pub total: Amount,
    pub locked: bool,
}

/// What an [`Account`] says.
pub struct AccountView {
    pub client_id: u16,
    pub available: Dec,
    pub held: Dec,
    pub total: Dec,
    pub locked: bool,
}

impl View for Account {
    type V = AccountView;

    open spec fn view(&self) -> AccountView {
        AccountView {
            client_id: self.client_id,
            available: self.available@,
            held: self.held@,
            total: self.total@,
            locked: self.locked,
        }
    }
}

impl AccountView {
    /// The account that an operation which can go out of range has returned, if it has.
    pub open spec fn of(r: Option<Account>) -> Option<AccountView> {
        match r {
            Some(a) => Some(a@),
            None => None,
        }
    }

    /// The account of a client of whom nothing is known yet.
    pub open spec fn fresh(client_id: u16) -> AccountView {
        AccountView {
            client_id,
            available: Dec::zero(),
            held: Dec::zero(),
            total: Dec::zero(),
            locked: false,
        }
    }

    /// This account with new balances; `None` when one of them is out of range.
    pub open spec fn rebalanced(
        self,
        available: Option<Dec>,
        held: Option<Dec>,
        total: Option<Dec>,
    ) -> Option<AccountView> {
        match (available, held, total) {
            (Some(available), Some(held), Some(total)) => Some(
                AccountView { available, held, total, ..self },
            ),
            _ => None,
        }
    }

    /// Credited with `amount`: available and total grow.
    pub open spec fn deposited(self, amount: Dec) -> Option<AccountView> {
        self.rebalanced(self.available.plus(amount), Some(self.held), self.total.plus(amount))
    }

    /// Debited by `amount`: available and total shrink.
    pub open spec fn withdrawn(self, amount: Dec) -> Option<AccountView> {
        self.rebalanced(
            self.available.minus(amount),
            Some(self.held),
            self.total.minus(amount),
        )
    }

    /// With `amount` moved from available to held; the total stays.
    pub open spec fn disputed(self, amount: Dec) -> Option<AccountView> {
        self.rebalanced(
            self.available.minus(amount),
            self.held.plus(amount),
            Some(self.total),
        )
    }

    /// With `amount` moved from held back to available; the total stays.
    pub open spec fn resolved(self, amount: Dec) -> Option<AccountView> {
        self.rebalanced(
            self.available.plus(amount),
            self.held.minus(amount),
            Some(self.total),
        )
    }

    /// With `amount` taken out of held and total, and locked.
    pub open spec fn charged_back(self, amount: Dec) -> Option<AccountView> {
        AccountView { locked: true, ..self }.rebalanced(
            Some(self.available),
            self.held.minus(amount),
            self.total.minus(amount),
        )
    }
}

impl Account {
    /// The account of a client of whom nothing is known yet.
    pub fn fresh(client_id: u16) -> (r: Account)
        ensures
            r@ == AccountView::fresh(client_id),
    {
        Account {
            client_id,
            available: Amount::zero(),
            held: Amount::zero(),
            total: Amount::zero(),
            locked: false,
        }
    }

    fn rebalanced(
        self,
        available: Option<Amount>,
        held: Option<Amount>,
        total: Option<Amount>,
    ) -> (r: Option<Account>)
        ensures
            AccountView::of(r) == self@.rebalanced(
                Dec::of(available),
                Dec::of(held),
                Dec::of(total),
            ),
    {
        match (available, held, total) {
            (Some(available), Some(held), Some(total)) => Some(
                Account { available, held, total, ..self },
            ),
            _ => None,
        }
    }

    /// Credits `amount`, unless a balance would go out of range.
    pub fn checked_deposit(self, amount: Amount) -> (r: Option<Account>)
        ensures
            AccountView::of(r) == self@.deposited(amount@),
    {
        self.rebalanced(
            self.available.checked_add(amount),
            Some(self.held),
            self.total.checked_add(amount),
        )
    }

    /// Debits `amount`, unless a balance would go out of range.
    pub fn checked_withdrawal(self, amount: Amount) -> (r: Option<Account>)
        ensures
            AccountView::of(r) == self@.withdrawn(amount@),
    {
        self.rebalanced(
            self.available.checked_sub(amount),
            Some(self.held),
            self.total.checked_sub(amount),
        )
    }

    /// Moves `amount` from available to held, unless a balance would go out of range.
    pub fn checked_dispute(self, amount: Amount) -> (r: Option<Account>)
        ensures
            AccountView::of(r) == self@.disputed(amount@),
    {
        self.rebalanced(
            self.available.checked_sub(amount),
            self.held.checked_add(amount),
            Some(self.total),
        )
    }

    /// Moves `amount` from held to available, unless a balance would go out of range.
    pub fn checked_resolve(self, amount: Amount) -> (r: Option<Account>)
        ensures
            AccountView::of(r) == self@.resolved(amount@),
    {
        self.rebalanced(
            self.available.checked_add(amount),
            self.held.checked_sub(amount),
            Some(self.total),
        )
    }

    /// Takes `amount` out of held and total and locks the account, unless a balance would go out
    /// of range.
    pub fn checked_chargeback(self, amount: Amount) -> (r: Option<Account>)
        ensures
            AccountView::of(r) == self@.charged_back(amount@),
    {
        Account { locked: true, ..self }.rebalanced(
            Some(self.available),
            self.held.checked_sub(amount),
            self.total.checked_sub(amount),
        )
    }

    /// Apply a deposit. Soft-fails on a negative amount. Locked accounts may still receive
    /// deposits: they are how a locked account regains funds.
    pub fn apply_deposit(self, amount: Amount) -> (r: Result<Account, ProcessorSoftFailures>)
        requires
            0 <= amount@.units() ==> self@.deposited(amount@) is Some,
        ensures
            r is Err <==> amount@.units() < 0,
            r matches Err(e) ==> e == ProcessorSoftFailures::NegativeAmount,
            r matches Ok(a) ==> self@.deposited(amount@) == Some(a@),
            forall|tx: TxView|
                tx.tx_type is Deposit && tx.amount == amount@ ==> (r is Ok
                    <==> #[trigger] crate::ledger::refusal(tx, false, self@, None) is None),
    {
        if amount.is_less_than(Amount::zero()) {
            return Err(ProcessorSoftFailures::NegativeAmount);
        }
        Ok(self.checked_deposit(amount).unwrap())
    }

    /// Apply a withdrawal. Soft-fails on a negative amount, a locked account, or insufficient
    /// available funds, in this order.
    pub fn apply_withdrawal(self, amount: Amount) -> (r: Result<Account, ProcessorSoftFailures>)
        requires
            0 <= amount@.units() <= self@.available.units() && !self.locked
                ==> self@.withdrawn(amount@) is Some,
        ensures
            r == Err::<Account, _>(ProcessorSoftFailures::NegativeAmount) <==> amount@.units() < 0,
            r == Err::<Account, _>(ProcessorSoftFailures::AccountLocked) <==> 0 <= amount@.units()
                && self.locked,
            r == Err::<Account, _>(ProcessorSoftFailures::InsufficientFunds) <==> 0
                <= amount@.units() && !self.locked && self@.available.units() < amount@.units(),
            r is Ok <==> 0 <= amount@.units() <= self@.available.units() && !self.locked,
            r matches Ok(a) ==> self@.withdrawn(amount@) == Some(a@),
            forall|tx: TxView|
                tx.tx_type is Withdrawal && tx.amount == amount@ ==> (r is Ok
                    <==> #[trigger] crate::ledger::refusal(tx, false, self@, None) is None),
    {
        if amount.is_less_than(Amount::zero()) {
            return Err(ProcessorSoftFailures::NegativeAmount);
        }
        if self.locked {
            return Err(ProcessorSoftFailures::AccountLocked);
        }
        if self.available.is_less_than(amount) {
            return Err(ProcessorSoftFailures::InsufficientFunds);
        }
        Ok(self.checked_withdrawal(amount).unwrap())
    }

    /// Move the disputed amount from available to held; the total stays. That the dispute is
    /// well-formed (the disputed transaction exists, belongs to this client, and is a deposit) is
    /// for the caller to see to: it takes lookups in the storage.
    pub fn apply_dispute(self, disputed_amount: Amount) -> (r: Account)
        requires
            self@.disputed(disputed_amount@) is Some,
        ensures
            self@.disputed(disputed_amount@) == Some(r@),
    {
        self.checked_dispute(disputed_amount).unwrap()
    }

    /// Release held funds back to available; the total stays.
    pub fn apply_resolve(self, disputed_amount: Amount) -> (r: Account)
        requires
            self@.resolved(disputed_amount@) is Some,
        ensures
            self@.resolved(disputed_amount@) == Some(r@),
    {
        self.checked_resolve(disputed_amount).unwrap()
    }

    /// Remove held funds from the total and lock the account. An account that is locked already
    /// stays locked.
    pub fn apply_chargeback(self, disputed_amount: Amount) -> (r: Account)
        requires
            self@.charged_back(disputed_amount@) is Some,
        ensures
            self@.charged_back(disputed_amount@) == Some(r@),
    {
        self.checked_chargeback(disputed_amount).unwrap()
    }
}

} // verus!
