//! The transaction processor.

use crate::amount::Amount;
use crate::domain::{Account, AccountView, ProcessorSoftFailures, Transaction, TxType, TxView};
use crate::ledger::{Ledger, Ruling};
use crate::ports::{ProcessOutcome, Storage};
use crate::sources::route;
use crate::storage::local_memory::LocalMemoryStorage;
use vstd::prelude::*;

verus! {

/// What is to be done with a transaction.
#[derive(Debug, Clone, Copy)]
pub enum Decision {
    /// Nothing: it is refused, for this reason.
    Refuse(ProcessorSoftFailures),
    /// Record it, together with the account it leads to.
    Store(Account),
    /// It cannot be carried out: a balance would go out of the range of amounts.
    OutOfRange,
}

impl View for Decision {
    type V = Ruling;

    open spec fn view(&self) -> Ruling {
        match *self {
            Decision::Refuse(reason) => Ruling::Refuse(reason),
            Decision::Store(account) => Ruling::Store(account@),
            Decision::OutOfRange => Ruling::OutOfRange,
        }
    }
}

impl Decision {
    fn store(updated: Option<Account>) -> (r: Decision)
        ensures
            r@ == match AccountView::of(updated) {
                Some(a) => Ruling::Store(a),
                None => Ruling::OutOfRange,
            },
    {
        match updated {
            Some(account) => Decision::Store(account),
            None => Decision::OutOfRange,
        }
    }
}

/// What a transaction that may be missing says.
pub open spec fn found(target: Option<Transaction>) -> Option<TxView> {
    match target {
        Some(t) => Some(t@),
        None => None,
    }
}

/// Decides what is to be done with `tx`, given what the storage knows that bears on it: whether a
/// deposit or withdrawal with its id was accepted before, the account of its client, and the
/// transaction that a dispute, resolve or chargeback refers to.
pub fn decide(
    tx: Transaction,
    processed: bool,
    account: Account,
    target: Option<Transaction>,
) -> (r: Decision)
    ensures
        r@ == crate::ledger::ruling(tx@, processed, account@, found(target)),
{
    match tx.tx_type {
        // Credit: increases available and total, on a locked account too.
        TxType::Deposit => {
            if processed {
                return Decision::Refuse(ProcessorSoftFailures::AlreadyProcessed);
            }
            if tx.amount.is_less_than(Amount::zero()) {
                return Decision::Refuse(ProcessorSoftFailures::NegativeAmount);
            }
            Decision::store(account.checked_deposit(tx.amount))
        },
        // Debit: decreases available and total. Refused on a locked account, and where it would
        // overdraw.
        TxType::Withdrawal => {
            if processed {
                return Decision::Refuse(ProcessorSoftFailures::AlreadyProcessed);
            }
            if account.locked {
                return Decision::Refuse(ProcessorSoftFailures::AccountLocked);
            }
            if tx.amount.is_less_than(Amount::zero()) {
                return Decision::Refuse(ProcessorSoftFailures::NegativeAmount);
            }
            if account.available.is_less_than(tx.amount) {
                return Decision::Refuse(ProcessorSoftFailures::InsufficientFunds);
            }
            Decision::store(account.checked_withdrawal(tx.amount))
        },
        // A lifecycle event, on a locked account too: a dispute opens a hold against a deposit, a
        // resolve releases it, and a chargeback takes the money out and locks the account.
        TxType::Dispute | TxType::Resolve | TxType::Chargeback => {
            let target = match target {
                Some(t) => t,
                None => {
                    return Decision::Refuse(ProcessorSoftFailures::DisputedTransactionNotFound);
                },
            };
            if target.client_id != tx.client_id {
                return Decision::Refuse(ProcessorSoftFailures::ClientIdMismatch);
            }
            match tx.tx_type {
                TxType::Dispute => {
                    if target.tx_type != TxType::Deposit {
                        return Decision::Refuse(ProcessorSoftFailures::DisputeOnNonDeposit);
                    }
                    Decision::store(account.checked_dispute(target.amount))
                },
                TxType::Resolve => Decision::store(account.checked_resolve(target.amount)),
                _ => Decision::store(account.checked_chargeback(target.amount)),
            }
        },
    }
}

/// Record an accepted transaction and the account it has led to.
fn post<S: Storage + ?Sized>(storage: &mut S, tx: Transaction, account: Account) -> (r: Result<
    (),
    S::Error,
>)
    requires
        tx.tx_type is Dispute ==> old(storage).ledger().transactions.contains_key(tx.tx_id),
        tx.tx_type is Resolve || tx.tx_type is Chargeback
            ==> old(storage).ledger().disputed.contains_key(tx.tx_id),
    ensures
        final(storage).faults() == old(storage).faults(),
        r is Ok ==> final(storage).ledger() == old(storage).ledger().posted(tx@, account@),
        r is Err ==> final(storage).ledger() == old(storage).ledger(),
        r matches Err(e) ==> old(storage).faults().contains(e),
{
    match tx.tx_type {
        TxType::Deposit | TxType::Withdrawal => {
            storage.update_account_for_withdrawal_or_deposit(tx, account)
        },
        TxType::Dispute => storage.update_account_for_dispute(tx, account),
        TxType::Resolve => storage.update_account_for_resolve(tx, account),
        TxType::Chargeback => storage.update_account_for_chargeback(tx, account),
    }
}

/// Why a transaction could not be processed. None of these is a business condition.
#[derive(Debug, Clone, Copy, PartialEq, Eq)]
pub enum ProcessFault<E> {
    /// The storage failed, with this error.
    Storage(E),
    /// A balance would go out of the range of amounts.
    AmountOutOfRange,
}

/// Apply a single transaction to storage, whatever the balances are.
/// `Ok(Applied)`: the state was changed.
/// `Ok(SoftFailed(reason))`: a valid business no-op.
/// `Err(_)`: a genuine fault; no balance has changed.
pub fn try_process_transaction<S: Storage + ?Sized>(
    storage: &mut S,
    tx: Transaction,
) -> (r: Result<ProcessOutcome, ProcessFault<S::Error>>)
    ensures
        final(storage).faults() == old(storage).faults(),
        match r {
            Ok(ProcessOutcome::Applied) => {
                &&& old(storage).ledger().ruling(tx@) is Store
                &&& final(storage).ledger() == old(storage).ledger().after(tx@)
            },
            Ok(ProcessOutcome::SoftFailed(reason)) => {
                &&& old(storage).ledger().ruling(tx@) == Ruling::Refuse(reason)
                &&& final(storage).ledger() == old(storage).ledger().after(tx@)
            },
            Err(ProcessFault::AmountOutOfRange) => {
                &&& old(storage).ledger().ruling(tx@) is OutOfRange
                &&& final(storage).ledger() == old(storage).ledger().after(tx@)
            },
            Err(ProcessFault::Storage(e)) => {
                &&& old(storage).faults().contains(e)
                &&& final(storage).ledger() == old(storage).ledger() || final(storage).ledger()
                    == old(storage).ledger().opened(tx.client_id)
            },
        },
{
    // Repeated deposits and withdrawals are told by their id. Lifecycle events are held against
    // the active or the disputed transactions below instead.
    if tx.tx_type == TxType::Deposit || tx.tx_type == TxType::Withdrawal {
        match storage.has_transaction_been_processed(tx.tx_id) {
            Ok(true) => {
                return Ok(ProcessOutcome::SoftFailed(ProcessorSoftFailures::AlreadyProcessed));
            },
            Ok(false) => {},
            Err(e) => {
                return Err(ProcessFault::Storage(e));
            },
        }
    }
    let account = match storage.get_account(tx.client_id) {
        Ok(account) => account,
        Err(e) => {
            return Err(ProcessFault::Storage(e));
        },
    };
    let lookup = match tx.tx_type {
        TxType::Deposit | TxType::Withdrawal => Ok(None),
        TxType::Dispute => storage.find_transaction(tx.tx_id),
        TxType::Resolve | TxType::Chargeback => storage.find_disputed_transaction(tx.tx_id),
    };
    let target = match lookup {
        Ok(target) => target,
        Err(e) => {
            return Err(ProcessFault::Storage(e));
        },
    };
    match decide(tx, false, account, target) {
        Decision::Refuse(reason) => Ok(ProcessOutcome::SoftFailed(reason)),
        Decision::OutOfRange => Err(ProcessFault::AmountOutOfRange),
        Decision::Store(updated) => match post(storage, tx, updated) {
            Ok(()) => Ok(ProcessOutcome::Applied),
            Err(e) => Err(ProcessFault::Storage(e)),
        },
    }
}

/// Apply a single transaction to storage, where it leaves the balances in the range of amounts.
/// `Ok(Applied)`: the state was changed.
/// `Ok(SoftFailed(reason))`: a valid business no-op.
/// `Err(_)`: a genuine fault of the storage; no balance has changed.
pub fn process_transaction<S: Storage + ?Sized>(storage: &mut S, tx: Transaction) -> (r: Result<
    ProcessOutcome,
    S::Error,
>)
    requires
        !(old(storage).ledger().ruling(tx@) is OutOfRange),
    ensures
        final(storage).faults() == old(storage).faults(),
        old(storage).faults() == Set::<S::Error>::empty() ==> r is Ok,
        match r {
            Ok(ProcessOutcome::Applied) => {
                &&& old(storage).ledger().ruling(tx@) is Store
                &&& final(storage).ledger() == old(storage).ledger().after(tx@)
            },
            Ok(ProcessOutcome::SoftFailed(reason)) => {
                &&& old(storage).ledger().ruling(tx@) == Ruling::Refuse(reason)
                &&& final(storage).ledger() == old(storage).ledger().after(tx@)
            },
            Err(e) => {
                &&& old(storage).faults().contains(e)
                &&& final(storage).ledger() == old(storage).ledger() || final(storage).ledger()
                    == old(storage).ledger().opened(tx.client_id)
            },
        },
{
    match try_process_transaction(storage, tx) {
        Ok(outcome) => Ok(outcome),
        Err(ProcessFault::Storage(e)) => Err(e),
        Err(ProcessFault::AmountOutOfRange) => vstd::pervasive::unreached(),
    }
}

/// What a list of transactions says.
pub open spec fn tx_views(txs: Seq<Transaction>) -> Seq<TxView> {
    txs.map_values(|t: Transaction| t@)
}

/// How the processing of a transaction that `ruling` is about ends, if it does not go out of range.
pub open spec fn outcome_of(ruling: Ruling) -> ProcessOutcome {
    match ruling {
        Ruling::Refuse(reason) => ProcessOutcome::SoftFailed(reason),
        _ => ProcessOutcome::Applied,
    }
}

/// What a worker does with the transactions that have come through its channel: each of them is
/// processed to completion before the next one is taken up, up to the first fault, if there is
/// one. Returns the outcomes of those before it, and the fault.
pub fn work_through<S: Storage + ?Sized>(storage: &mut S, txs: &Vec<Transaction>) -> (r: (
    Vec<ProcessOutcome>,
    Option<ProcessFault<S::Error>>,
))
    ensures
        final(storage).faults() == old(storage).faults(),
        r.0.len() <= txs.len(),
        r.1 is None <==> r.0.len() == txs.len(),
        forall|i: int|
            0 <= i < r.0.len() ==> {
                let ruling = #[trigger] old(storage).ledger().after_all(
                    tx_views(txs@).take(i),
                ).ruling(txs@[i]@);
                !(ruling is OutOfRange) && r.0@[i] == outcome_of(ruling)
            },
        match r.1 {
            None => final(storage).ledger() == old(storage).ledger().after_all(tx_views(txs@)),
            Some(ProcessFault::AmountOutOfRange) => {
                let n = r.0.len() as int;
                &&& old(storage).ledger().after_all(tx_views(txs@).take(n)).ruling(txs@[n]@)
                    is OutOfRange
                &&& final(storage).ledger() == old(storage).ledger().after_all(
                    tx_views(txs@).take(n + 1),
                )
            },
            Some(ProcessFault::Storage(e)) => {
                let n = r.0.len() as int;
                let reached = old(storage).ledger().after_all(tx_views(txs@).take(n));
                &&& old(storage).faults().contains(e)
                &&& final(storage).ledger() == reached || final(storage).ledger()
                    == reached.opened(txs@[n].client_id)
            },
        },
{
    let ghost start = storage.ledger();
    let ghost views = tx_views(txs@);
    let mut outcomes: Vec<ProcessOutcome> = Vec::new();
    let mut i: usize = 0;
    assert(views.take(0) =~= Seq::empty());
    while i < txs.len()
        invariant
            i <= txs.len(),
            outcomes.len() == i,
            views == tx_views(txs@),
            start == old(storage).ledger(),
            storage.faults() == old(storage).faults(),
            storage.ledger() == start.after_all(views.take(i as int)),
            forall|j: int|
                0 <= j < i ==> {
                    let ruling = #[trigger] start.after_all(views.take(j)).ruling(txs@[j]@);
                    !(ruling is OutOfRange) && outcomes@[j] == outcome_of(ruling)
                },
        decreases txs.len() - i,
    {
        assert(views.take(i + 1).drop_last() =~= views.take(i as int));
        assert(views.take(i + 1).last() == txs@[i as int]@);
        match try_process_transaction(storage, txs[i]) {
            Ok(outcome) => {
                outcomes.push(outcome);
            },
            Err(fault) => {
                return (outcomes, Some(fault));
            },
        }
        i = i + 1;
    }
    assert(views.take(i as int) =~= views);
    (outcomes, None)
}

/// The capacity of each bounded channel, unless it is overridden.
pub const DEFAULT_CHANNEL_CAPACITY: usize = 512;

/// The largest capacity that a bounded channel can have.
pub const MAX_CHANNEL_CAPACITY: usize = usize::MAX / 8;

/// `num_cpus::get`: the number of logical CPUs, which is never zero. Which number it is depends on
/// the machine, and is left open.
#[verifier::external_body]
fn logical_cpus() -> (r: usize)
    ensures
        r >= 1,
{
    num_cpus::get()
}

/// The number of workers, given the number asked for, if any, and the number of logical CPUs.
/// There is always at least one.
pub open spec fn worker_count(requested: Option<usize>, cpus: usize) -> usize {
    let n = match requested {
        Some(n) => n,
        None => cpus,
    };
    if n < 1 {
        1
    } else {
        n
    }
}

/// Settings of a [`TransactionProcessor`].
pub struct TransactionProcessorBuilder<S> {
    /// The number of workers asked for, if any.
    pub parallelism: Option<usize>,
    /// The capacity of each bounded channel.
    pub channel_capacity: usize,
    /// The storage adapter.
    pub storage: S,
}

impl Default for TransactionProcessorBuilder<LocalMemoryStorage> {
    fn default() -> (r: TransactionProcessorBuilder<LocalMemoryStorage>)
        ensures
            r.parallelism is None,
            r.channel_capacity == DEFAULT_CHANNEL_CAPACITY,
            r.channel_capacity == 512,
            r.storage@ == Ledger::empty(),
    {
        TransactionProcessorBuilder::new()
    }
}

impl TransactionProcessorBuilder<LocalMemoryStorage> {
    /// The default settings: one worker for each logical CPU, channels of the default capacity,
    /// and an empty in-memory storage.
    pub fn new() -> (r: TransactionProcessorBuilder<LocalMemoryStorage>)
        ensures
            r.parallelism is None,
            r.channel_capacity == DEFAULT_CHANNEL_CAPACITY,
            r.channel_capacity == 512,
            r.storage@ == Ledger::empty(),
    {
        TransactionProcessorBuilder {
            parallelism: None,
            channel_capacity: DEFAULT_CHANNEL_CAPACITY,
            storage: LocalMemoryStorage::new(),
        }
    }
}

impl<S> TransactionProcessorBuilder<S> {
    /// Override worker parallelism. Defaults to the number of logical CPUs.
    pub fn parallelism(self, n: usize) -> (r: TransactionProcessorBuilder<S>)
        ensures
            r == (TransactionProcessorBuilder { parallelism: Some(n), ..self }),
    {
        TransactionProcessorBuilder { parallelism: Some(n), ..self }
    }

    /// Override the capacity of each bounded channel. Defaults to 512.
    pub fn channel_capacity(self, n: usize) -> (r: TransactionProcessorBuilder<S>)
        ensures
            r == (TransactionProcessorBuilder { channel_capacity: n, ..self }),
    {
        TransactionProcessorBuilder { channel_capacity: n, ..self }
    }

    /// Override the storage adapter. Defaults to an empty `LocalMemoryStorage`.
    pub fn storage<T>(self, storage: T) -> (r: TransactionProcessorBuilder<T>)
        ensures
            r.parallelism == self.parallelism,
            r.channel_capacity == self.channel_capacity,
            r.storage == storage,
    {
        TransactionProcessorBuilder {
            parallelism: self.parallelism,
            channel_capacity: self.channel_capacity,
            storage,
        }
    }

    /// The processor with these settings, on a machine with `cpus` logical CPUs. A bounded channel
    /// needs room for at least one transaction, and has a largest capacity.
    pub fn build_for(self, cpus: usize) -> (r: TransactionProcessor<S>)
        requires
            1 <= self.channel_capacity <= MAX_CHANNEL_CAPACITY,
        ensures
            r.parallelism == worker_count(self.parallelism, cpus),
            r.channel_capacity == self.channel_capacity,
            r.storage == self.storage,
    {
        let n: usize = match self.parallelism {
            Some(n) => n,
            None => cpus,
        };
        let parallelism: usize = if n < 1 {
            1
        } else {
            n
        };
        TransactionProcessor {
            parallelism,
            channel_capacity: self.channel_capacity,
            storage: self.storage,
        }
    }

    /// The processor with these settings, on this machine. A bounded channel needs room for at
    /// least one transaction, and has a largest capacity.
    pub fn build(self) -> (r: TransactionProcessor<S>)
        requires
            1 <= self.channel_capacity <= MAX_CHANNEL_CAPACITY,
        ensures
            exists|cpus: usize|
                cpus >= 1 && r.parallelism == #[trigger] worker_count(self.parallelism, cpus),
            r.channel_capacity == self.channel_capacity,
            r.storage == self.storage,
    {
        let cpus: usize = match self.parallelism {
            Some(_) => 1,
            None => logical_cpus(),
        };
        self.build_for(cpus)
    }
}

/// A processor: how many workers share the transactions, over channels of which capacity, and the
/// storage they work on.
pub struct TransactionProcessor<S> {
    /// The number of workers.
    pub parallelism: usize,
    /// The capacity of each bounded channel.
    pub channel_capacity: usize,
    /// The storage adapter.
    pub storage: S,
}

impl TransactionProcessor<LocalMemoryStorage> {
    /// The default settings.
    pub fn builder() -> (r: TransactionProcessorBuilder<LocalMemoryStorage>)
        ensures
            r.parallelism is None,
            r.channel_capacity == DEFAULT_CHANNEL_CAPACITY,
            r.channel_capacity == 512,
            r.storage@ == Ledger::empty(),
    {
        TransactionProcessorBuilder::new()
    }
}

impl<S> TransactionProcessor<S> {
    /// The number of workers.
    pub fn parallelism(&self) -> (r: usize)
        ensures
            r == self.parallelism,
    {
        self.parallelism
    }

    /// The capacity of each bounded channel.
    pub fn channel_capacity(&self) -> (r: usize)
        ensures
            r == self.channel_capacity,
    {
        self.channel_capacity
    }

    /// The storage adapter.
    pub fn storage(&self) -> (r: &S)
        ensures
            *r == self.storage,
    {
        &self.storage
    }

    /// Map a `u16` key onto a worker channel index. The result is in `[0, parallelism)`.
    pub fn route(&self, key: u16) -> (r: usize)
        ensures
            r == crate::sources::channel_of(key, self.parallelism),
            r < self.parallelism || r == 0,
    {
        route(key, self.parallelism)
    }
}

impl<S: Storage> TransactionProcessor<S> {
    /// Get a page of a snapshot of all accounts from storage.
    pub fn snapshot_accounts(&self, page: usize, page_size: usize) -> (r: Result<
        Vec<Account>,
        S::Error,
    >)
        requires
            page * page_size <= usize::MAX,
        ensures
            r matches Ok(accounts) ==> crate::paging::account_views(accounts@)
                == crate::paging::page_of(
                self.storage.listing(),
                page as nat,
                page_size as nat,
            ),
            r is Ok ==> self.storage.ledger().lists(self.storage.listing()),
            r matches Err(e) ==> self.storage.faults().contains(e),
            self.storage.faults() == Set::<S::Error>::empty() ==> r is Ok,
    {
        self.storage.all_accounts(page, page_size)
    }
}

} // verus!
