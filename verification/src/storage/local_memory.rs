//! In-memory storage.

use crate::domain::{Account, AccountView, Transaction, TxType, TxView};
use crate::ledger::Ledger;
use crate::paging::take_page;
use crate::ports::{Storage, TransactionError};
use std::collections::{HashMap, HashSet};
use vstd::prelude::*;

verus! {

broadcast use vstd::std_specs::hash::group_hash_axioms;

/// A transaction that is guaranteed to be a deposit or a withdrawal. Lifecycle events (dispute,
/// resolve, chargeback) are rejected.
#[derive(Debug, Clone, Copy)]
pub struct MonetaryTransaction(Transaction);

impl View for MonetaryTransaction {
    type V = TxView;

    closed spec fn view(&self) -> TxView {
        self.0@
    }
}

impl MonetaryTransaction {
    #[verifier::type_invariant]
    pub closed spec fn inv(self) -> bool {
        self.0.tx_type.is_monetary()
    }

    /// Takes a deposit or withdrawal, and rejects any other transaction.
    pub fn try_from(tx: Transaction) -> (r: Result<MonetaryTransaction, TransactionError>)
        ensures
            r is Ok <==> tx.tx_type.is_monetary(),
            r matches Ok(m) ==> m@ == tx@,
            r matches Err(e) ==> e == TransactionError::InvalidTransactionStorageAttempt,
    {
        match tx.tx_type {
            TxType::Deposit | TxType::Withdrawal => Ok(MonetaryTransaction(tx)),
            _ => Err(TransactionError::InvalidTransactionStorageAttempt),
        }
    }

    /// The transaction itself.
    pub fn into_transaction(self) -> (r: Transaction)
        ensures
            r@ == self@,
            r.tx_type.is_monetary(),
    {
        proof {
            use_type_invariant(&self);
        }
        self.0
    }
}

/// In-memory storage adapter.
pub struct LocalMemoryStorage {
    accounts: HashMap<u16, Account>,
    transactions: HashMap<u32, Transaction>,
    disputed_transactions: HashMap<u32, Transaction>,
    processed_tx_ids: HashSet<u32>,
}

impl Default for LocalMemoryStorage {
    fn default() -> (r: LocalMemoryStorage)
        ensures
            r.ledger() == Ledger::empty(),
    {
        LocalMemoryStorage::new()
    }
}

impl View for LocalMemoryStorage {
    type V = Ledger;

    closed spec fn view(&self) -> Ledger {
        Ledger {
            accounts: self.accounts@.map_values(|a: Account| a@),
            transactions: self.transactions@.map_values(|t: Transaction| t@),
            disputed: self.disputed_transactions@.map_values(|t: Transaction| t@),
            processed: self.processed_tx_ids@,
        }
    }
}

impl LocalMemoryStorage {
    /// A storage that remembers nothing.
    pub fn new() -> (r: LocalMemoryStorage)
        ensures
            r@ == Ledger::empty(),
    {
        let r = LocalMemoryStorage {
            accounts: HashMap::new(),
            transactions: HashMap::new(),
            disputed_transactions: HashMap::new(),
            processed_tx_ids: HashSet::new(),
        };
        assert(r@ =~= Ledger::empty());
        r
    }

    /// Put `account` in place of the account of the same client.
    pub fn update(&mut self, account: Account)
        ensures
            final(self)@ == old(self)@.with_account(account@),
    {
        self.accounts.insert(account.client_id, account);
        assert(self@ =~= old(self)@.with_account(account@));
    }

    /// Move a transaction from the active to the disputed ones. Fails when it is not active.
    pub fn transfer_from_transactions_to_disputed(&mut self, tx_id: u32) -> (r: Result<
        (),
        TransactionError,
    >)
        ensures
            r is Ok <==> old(self)@.transactions.contains_key(tx_id),
            r is Ok ==> final(self)@ == old(self)@.with_dispute(tx_id),
            r matches Err(e) ==> e == TransactionError::StoreCorruptionDetected,
            r is Err ==> final(self)@ == old(self)@,
    {
        match self.transactions.remove(&tx_id) {
            Some(tx) => {
                self.disputed_transactions.insert(tx_id, tx);
                assert(self@ =~= old(self)@.with_dispute(tx_id));
                Ok(())
            },
            None => {
                assert(self@ =~= old(self)@);
                Err(TransactionError::StoreCorruptionDetected)
            },
        }
    }

    /// Move a transaction from the disputed to the active ones. Fails when it is not disputed.
    pub fn transfer_from_disputed_to_transactions(&mut self, tx_id: u32) -> (r: Result<
        (),
        TransactionError,
    >)
        ensures
            r is Ok <==> old(self)@.disputed.contains_key(tx_id),
            r is Ok ==> final(self)@ == old(self)@.without_dispute(tx_id),
            r matches Err(e) ==> e == TransactionError::StoreCorruptionDetected,
            r is Err ==> final(self)@ == old(self)@,
    {
        match self.disputed_transactions.remove(&tx_id) {
            Some(tx) => {
                self.transactions.insert(tx_id, tx);
                assert(self@ =~= old(self)@.without_dispute(tx_id));
                Ok(())
            },
            None => {
                assert(self@ =~= old(self)@);
                Err(TransactionError::StoreCorruptionDetected)
            },
        }
    }

    /// Forget a disputed transaction. Fails when it is not disputed.
    pub fn discard_disputed(&mut self, tx_id: u32) -> (r: Result<(), TransactionError>)
        ensures
            r is Ok <==> old(self)@.disputed.contains_key(tx_id),
            r is Ok ==> final(self)@ == old(self)@.with_disputed_discarded(tx_id),
            r matches Err(e) ==> e == TransactionError::StoreCorruptionDetected,
            r is Err ==> final(self)@ == old(self)@,
    {
        match self.disputed_transactions.remove(&tx_id) {
            Some(_) => {
                assert(self@ =~= old(self)@.with_disputed_discarded(tx_id));
                Ok(())
            },
            None => {
                assert(self@ =~= old(self)@);
                Err(TransactionError::StoreCorruptionDetected)
            },
        }
    }

    /// The account of a client, which is opened when the client is not known yet.
    pub fn get_or_create(&mut self, client_id: u16) -> (r: Account)
        ensures
            r@ == old(self)@.account(client_id),
            final(self)@ == old(self)@.opened(client_id),
    {
        let known = match self.accounts.get(&client_id) {
            Some(account) => Some(*account),
            None => None,
        };
        match known {
            Some(account) => {
                assert(self@ =~= old(self)@.opened(client_id));
                account
            },
            None => {
                let account = Account::fresh(client_id);
                self.accounts.insert(client_id, account);
                assert(self@ =~= old(self)@.opened(client_id));
                account
            },
        }
    }

    /// Add a deposit or withdrawal to the active transactions.
    pub fn add_transaction(&mut self, tx: MonetaryTransaction)
        ensures
            final(self)@ == old(self)@.with_transaction(tx@),
    {
        let tx = tx.into_transaction();
        self.transactions.insert(tx.tx_id, tx);
        self.processed_tx_ids.insert(tx.tx_id);
        assert(self@ =~= old(self)@.with_transaction(tx@));
    }
}

impl LocalMemoryStorage {
    /// The listing shows every account once, because the map is walked without repetition.
    proof fn lemma_listing(&self, walked: Seq<(&u16, &Account)>)
        requires
            walked.unref() == vstd::std_specs::hash::into_iter(
                vstd::std_specs::hash::spec_hash_map_iter(&self.accounts),
            ),
            walked == vstd::std_specs::iter::IteratorSpec::remaining(
                &vstd::std_specs::hash::spec_hash_map_iter(&self.accounts),
            ),
            walked.no_duplicates(),
        ensures
            self@.lists(self.listing()),
    {
        let m = self.accounts@;
        let clients = walked.map_values(|e: (&u16, &Account)| *e.0);
        assert forall|i: int, j: int|
            0 <= i < clients.len() && 0 <= j < clients.len() && i != j implies clients[i]
            != clients[j] by {
            assert(m.contains_key(*walked[i].0) && m[*walked[i].0] == *walked[i].1);
            assert(m.contains_key(*walked[j].0) && m[*walked[j].0] == *walked[j].1);
        }
        assert forall|c: u16| clients.to_set().contains(c) == m.contains_key(c) by {
            if m.contains_key(c) {
                assert(walked.contains((&c, &m[c])));
                let i = choose|i: int| 0 <= i < walked.len() && walked[i] == (&c, &m[c]);
                assert(clients[i] == c);
            }
            if clients.contains(c) {
                let i = choose|i: int| 0 <= i < clients.len() && clients[i] == c;
                assert(m.contains_key(*walked[i].0));
            }
        }
        assert(clients.to_set() =~= self@.accounts.dom());
        assert forall|i: int| 0 <= i < walked.len() implies self.listing()[i]
            == self@.accounts[clients[i]] by {
            assert(m.contains_key(*walked[i].0) && m[*walked[i].0] == *walked[i].1);
            assert(walked.unref()[i] == (*walked[i].0, *walked[i].1));
        }
        assert(self.listing() =~= clients.map_values(|c: u16| self@.accounts[c]));
        assert(clients.no_duplicates());
    }

    /// All accounts, in the order in which the map is walked.
    fn list_accounts(&self) -> (r: Vec<Account>)
        ensures
            crate::paging::account_views(r@) == self.listing(),
            self@.lists(self.listing()),
    {
        let mut accounts: Vec<Account> = Vec::new();
        let ghost entries = vstd::std_specs::hash::into_iter(
            vstd::std_specs::hash::spec_hash_map_iter(&self.accounts),
        );
        let walk = self.accounts.iter();
        proof {
            self.lemma_listing(vstd::std_specs::iter::IteratorSpec::remaining(&walk));
        }
        for entry in it: walk
            invariant
                it.seq().unref() == entries,
                accounts@ == entries.take(it.index()).map_values(|e: (u16, Account)| e.1),
        {
            accounts.push(*entry.1);
        }
        accounts
    }
}

impl Storage for LocalMemoryStorage {
    type Error = TransactionError;

    open spec fn ledger(&self) -> Ledger {
        self@
    }

    closed spec fn listing(&self) -> Seq<AccountView> {
        vstd::std_specs::hash::into_iter(
            vstd::std_specs::hash::spec_hash_map_iter(&self.accounts),
        ).map_values(|entry: (u16, Account)| entry.1@)
    }

    open spec fn faults(&self) -> Set<TransactionError> {
        Set::empty()
    }

    fn update_account_for_withdrawal_or_deposit(
        &mut self,
        tx: Transaction,
        account: Account,
    ) -> (r: Result<(), TransactionError>)
        ensures
            r matches Err(e) ==> e == TransactionError::InvalidTransactionStorageAttempt,
    {
        match MonetaryTransaction::try_from(tx) {
            Ok(tx) => {
                self.update(account);
                self.add_transaction(tx);
                Ok(())
            },
            Err(e) => Err(e),
        }
    }

    fn update_account_for_dispute(&mut self, tx: Transaction, account: Account) -> (r: Result<
        (),
        TransactionError,
    >)
        ensures
            r matches Err(e) ==> e == TransactionError::StoreCorruptionDetected,
    {
        match self.transfer_from_transactions_to_disputed(tx.tx_id) {
            Ok(()) => {
                self.update(account);
                Ok(())
            },
            Err(e) => Err(e),
        }
    }

    fn update_account_for_resolve(&mut self, tx: Transaction, account: Account) -> (r: Result<
        (),
        TransactionError,
    >)
        ensures
            r matches Err(e) ==> e == TransactionError::StoreCorruptionDetected,
    {
        match self.transfer_from_disputed_to_transactions(tx.tx_id) {
            Ok(()) => {
                self.update(account);
                Ok(())
            },
            Err(e) => Err(e),
        }
    }

    fn update_account_for_chargeback(&mut self, tx: Transaction, account: Account) -> (r: Result<
        (),
        TransactionError,
    >)
        ensures
            r matches Err(e) ==> e == TransactionError::StoreCorruptionDetected,
    {
        match self.discard_disputed(tx.tx_id) {
            Ok(()) => {
                self.update(account);
                Ok(())
            },
            Err(e) => Err(e),
        }
    }

    fn get_account(&mut self, client_id: u16) -> (r: Result<Account, TransactionError>) {
        Ok(self.get_or_create(client_id))
    }

    fn find_transaction(&self, tx_id: u32) -> (r: Result<Option<Transaction>, TransactionError>) {
        match self.transactions.get(&tx_id) {
            Some(tx) => Ok(Some(*tx)),
            None => Ok(None),
        }
    }

    fn find_disputed_transaction(&self, tx_id: u32) -> (r: Result<
        Option<Transaction>,
        TransactionError,
    >) {
        match self.disputed_transactions.get(&tx_id) {
            Some(tx) => Ok(Some(*tx)),
            None => Ok(None),
        }
    }

    fn has_transaction_been_processed(&self, tx_id: u32) -> (r: Result<bool, TransactionError>) {
        Ok(self.processed_tx_ids.contains(&tx_id))
    }

    fn all_accounts(&self, page: usize, page_size: usize) -> (r: Result<
        Vec<Account>,
        TransactionError,
    >) {
        let accounts = self.list_accounts();
        let taken = take_page(&accounts, page, page_size);
        assert(crate::paging::account_views(taken@) =~= crate::paging::page_of(
            self.listing(),
            page as nat,
            page_size as nat,
        ));
        Ok(taken)
    }
}

} // verus!
