//! Ports of the processor.
//!
//! Concrete adapters live in `sources` and `storage`. The traits are narrow on purpose, so that
//! the processor knows nothing of how any of them is implemented.

use crate::domain::{Account, AccountView, ProcessorSoftFailures, Transaction};
use crate::ledger::Ledger;
use vstd::prelude::*;

verus! {

/// Genuine faults emitted by storage adapters. Business outcomes (negative amounts, insufficient
/// funds, lifecycle events that name missing transactions) are no errors: they are
/// [`ProcessOutcome::SoftFailed`]. An error means that an internal invariant was violated or that
/// the storage failed.
#[derive(Debug, Clone, Copy, PartialEq, Eq, Structural)]
pub enum TransactionError {
    InvalidTransactionStorageAttempt,
    StoreCorruptionDetected,
}

impl TransactionError {
    /// The text this error is reported with.
    pub open spec fn text(self) -> Seq<char> {
        match self {
            TransactionError::InvalidTransactionStorageAttempt =>
            "only Deposit and Withdrawal transactions can be stored as monetary transactions"@,
            TransactionError::StoreCorruptionDetected =>
            "expected transaction for atomic update not found or invalid. Logic, data corruption or race condition."@,
        }
    }

    /// The text this error is reported with.
    pub fn message(self) -> (r: &'static str)
        ensures
            r@ == self.text(),
    {
        match self {
            TransactionError::InvalidTransactionStorageAttempt =>
            "only Deposit and Withdrawal transactions can be stored as monetary transactions",
            TransactionError::StoreCorruptionDetected =>
            "expected transaction for atomic update not found or invalid. Logic, data corruption or race condition.",
        }
    }
}

/// How the processing of a transaction ended, faults aside.
#[derive(Debug, Clone, Copy, PartialEq, Eq, Structural)]
pub enum ProcessOutcome {
    /// The transaction was applied.
    Applied,
    /// The transaction was a valid no-op, for this reason.
    SoftFailed(ProcessorSoftFailures),
}

/// Outbound port: the persistence target of the processor.
///
/// Every update is atomic: it changes the account and the record of the transaction together, or
/// fails and changes neither. That is why there is one method for each kind of event, and no
/// finer ones.
///
/// A storage fails with errors of its own, which the processor hands on.
pub trait Storage {
    /// What this storage fails with.
    type Error;

    /// What this storage remembers.
    spec fn ledger(&self) -> Ledger;

    /// The accounts of the ledger in the order in which this storage lists them. The order is
    /// the storage's own, and may change whenever the storage does.
    spec fn listing(&self) -> Seq<AccountView>;

    /// The errors that this storage may fail with on a request that is in order. No call changes
    /// which these are.
    spec fn faults(&self) -> Set<Self::Error>;

    /// Add a deposit or withdrawal, together with the account it has led to. Fails on a
    /// transaction of another type.
    fn update_account_for_withdrawal_or_deposit(
        &mut self,
        tx: Transaction,
        account: Account,
    ) -> (r: Result<(), Self::Error>)
        ensures
            final(self).faults() == old(self).faults(),
            r is Ok ==> tx.tx_type.is_monetary(),
            r is Ok ==> final(self).ledger() == old(self).ledger().with_account(
                account@,
            ).with_transaction(tx@),
            r is Err ==> final(self).ledger() == old(self).ledger(),
            r matches Err(e) ==> old(self).faults().contains(e) || !tx.tx_type.is_monetary(),
    ;

    /// Put the active transaction with the id of `tx` under dispute, together with the account
    /// that this leads to. Fails where there is none.
    fn update_account_for_dispute(&mut self, tx: Transaction, account: Account) -> (r: Result<
        (),
        Self::Error,
    >)
        ensures
            final(self).faults() == old(self).faults(),
            r is Ok ==> old(self).ledger().transactions.contains_key(tx.tx_id),
            r is Ok ==> final(self).ledger() == old(self).ledger().with_account(
                account@,
            ).with_dispute(tx.tx_id),
            r is Err ==> final(self).ledger() == old(self).ledger(),
            r matches Err(e) ==> old(self).faults().contains(e)
                || !old(self).ledger().transactions.contains_key(tx.tx_id),
    ;

    /// Make the disputed transaction with the id of `tx` active again, together with the account
    /// that this leads to. Fails where there is none.
    fn update_account_for_resolve(&mut self, tx: Transaction, account: Account) -> (r: Result<
        (),
        Self::Error,
    >)
        ensures
            final(self).faults() == old(self).faults(),
            r is Ok ==> old(self).ledger().disputed.contains_key(tx.tx_id),
            r is Ok ==> final(self).ledger() == old(self).ledger().with_account(
                account@,
            ).without_dispute(tx.tx_id),
            r is Err ==> final(self).ledger() == old(self).ledger(),
            r matches Err(e) ==> old(self).faults().contains(e)
                || !old(self).ledger().disputed.contains_key(tx.tx_id),
    ;

    /// Forget the disputed transaction with the id of `tx`, together with the account that this
    /// leads to. Fails where there is none.
    fn update_account_for_chargeback(&mut self, tx: Transaction, account: Account) -> (r: Result<
        (),
        Self::Error,
    >)
        ensures
            final(self).faults() == old(self).faults(),
            r is Ok ==> old(self).ledger().disputed.contains_key(tx.tx_id),
            r is Ok ==> final(self).ledger() == old(self).ledger().with_account(
                account@,
            ).with_disputed_discarded(tx.tx_id),
            r is Err ==> final(self).ledger() == old(self).ledger(),
            r matches Err(e) ==> old(self).faults().contains(e)
                || !old(self).ledger().disputed.contains_key(tx.tx_id),
    ;

    /// The account of a client, which is opened when the client is not known yet.
    fn get_account(&mut self, client_id: u16) -> (r: Result<Account, Self::Error>)
        ensures
            final(self).faults() == old(self).faults(),
            r matches Ok(account) ==> account@ == old(self).ledger().account(client_id),
            r is Ok ==> final(self).ledger() == old(self).ledger().opened(client_id),
            r is Err ==> final(self).ledger() == old(self).ledger(),
            r matches Err(e) ==> old(self).faults().contains(e),
    ;

    /// Look up an active transaction, one that is not under dispute. `Ok(None)` means that there
    /// is none; an error is a fault of the storage.
    fn find_transaction(&self, tx_id: u32) -> (r: Result<Option<Transaction>, Self::Error>)
        ensures
            r matches Ok(None) ==> !self.ledger().transactions.contains_key(tx_id),
            r matches Ok(Some(tx)) ==> self.ledger().transactions.contains_pair(tx_id, tx@),
            r matches Err(e) ==> self.faults().contains(e),
    ;

    /// Look up a transaction under dispute, with results as for `find_transaction`.
    fn find_disputed_transaction(&self, tx_id: u32) -> (r: Result<
        Option<Transaction>,
        Self::Error,
    >)
        ensures
            r matches Ok(None) ==> !self.ledger().disputed.contains_key(tx_id),
            r matches Ok(Some(tx)) ==> self.ledger().disputed.contains_pair(tx_id, tx@),
            r matches Err(e) ==> self.faults().contains(e),
    ;

    /// Whether a deposit or withdrawal with this id was accepted before.
    fn has_transaction_been_processed(&self, tx_id: u32) -> (r: Result<bool, Self::Error>)
        ensures
            r matches Ok(b) ==> b == self.ledger().processed.contains(tx_id),
            r matches Err(e) ==> self.faults().contains(e),
    ;

    /// One page of the accounts.
    fn all_accounts(&self, page: usize, page_size: usize) -> (r: Result<
        Vec<Account>,
        Self::Error,
    >)
        requires
            page * page_size <= usize::MAX,
        ensures
            r matches Ok(accounts) ==> crate::paging::account_views(accounts@) == crate::paging::page_of(
                self.listing(),
                page as nat,
                page_size as nat,
            ),
            r is Ok ==> self.ledger().lists(self.listing()),
            r matches Err(e) ==> self.faults().contains(e),
    ;
}

} // verus!
