use transaction_processor::domain::{Account, AccountView, ProcessorSoftFailures, Transaction, TxType};
use transaction_processor::ledger::Ledger;
use transaction_processor::ports::{ProcessOutcome, Storage, TransactionError};
use transaction_processor::processor::{
    decide, process_transaction, try_process_transaction, work_through, Decision, ProcessFault,
};
use transaction_processor::report::account_report;
use transaction_processor::storage::local_memory::LocalMemoryStorage;
use transaction_processor::{route, Amount, TransactionProcessor};

const LARGEST: i128 = 79228162514264337593543950335;

const ALL_FAILURES: [ProcessorSoftFailures; 7] = [
    ProcessorSoftFailures::AlreadyProcessed,
    ProcessorSoftFailures::NegativeAmount,
    ProcessorSoftFailures::InsufficientFunds,
    ProcessorSoftFailures::AccountLocked,
    ProcessorSoftFailures::DisputedTransactionNotFound,
    ProcessorSoftFailures::DisputeOnNonDeposit,
    ProcessorSoftFailures::ClientIdMismatch,
];

fn amount(mantissa: i128, scale: u32) -> Amount {
    Amount::new(mantissa, scale).unwrap()
}

fn tx(tx_type: TxType, client_id: u16, tx_id: u32, cents: i128) -> Transaction {
    Transaction {
        tx_type,
        client_id,
        tx_id,
        amount: amount(cents, 2),
    }
}

fn deposit(client_id: u16, tx_id: u32, cents: i128) -> Transaction {
    tx(TxType::Deposit, client_id, tx_id, cents)
}

fn withdrawal(client_id: u16, tx_id: u32, cents: i128) -> Transaction {
    tx(TxType::Withdrawal, client_id, tx_id, cents)
}

fn dispute(client_id: u16, tx_id: u32) -> Transaction {
    tx(TxType::Dispute, client_id, tx_id, 0)
}

fn resolve(client_id: u16, tx_id: u32) -> Transaction {
    tx(TxType::Resolve, client_id, tx_id, 0)
}

fn chargeback(client_id: u16, tx_id: u32) -> Transaction {
    tx(TxType::Chargeback, client_id, tx_id, 0)
}

fn soft(reason: ProcessorSoftFailures) -> ProcessOutcome {
    ProcessOutcome::SoftFailed(reason)
}

/// Available, held and total as texts, and whether the account is locked.
fn balances(storage: &mut LocalMemoryStorage, client_id: u16) -> (String, String, String, bool) {
    let account = storage.get_account(client_id).unwrap();
    (
        account.available.normalize().text(),
        account.held.normalize().text(),
        account.total.normalize().text(),
        account.locked,
    )
}

fn expected(available: &str, held: &str, total: &str, locked: bool) -> (String, String, String, bool) {
    (
        available.to_string(),
        held.to_string(),
        total.to_string(),
        locked,
    )
}

fn worked(txs: Vec<Transaction>) -> (LocalMemoryStorage, Vec<ProcessOutcome>) {
    let mut storage = LocalMemoryStorage::new();
    let (outcomes, fault) = work_through(&mut storage, &txs);
    assert_eq!(fault, None);
    (storage, outcomes)
}

#[test]
fn labels_of_soft_failures() {
    let labels = [
        "already_processed",
        "negative_amount",
        "insufficient_funds",
        "account_locked",
        "disputed_transaction_not_found",
        "dispute_on_non_deposit",
        "client_id_mismatch",
    ];
    for (failure, label) in ALL_FAILURES.iter().zip(labels) {
        assert_eq!(failure.as_str(), label);
    }
}

#[test]
fn a_worker_processes_its_transactions_in_order() {
    let (mut storage, outcomes) = worked(vec![
        deposit(1, 1, 1050),
        withdrawal(1, 2, 50),
        withdrawal(1, 3, 100_000),
        dispute(1, 1),
        resolve(1, 1),
        dispute(1, 1),
        chargeback(1, 1),
    ]);
    assert_eq!(
        outcomes,
        [
            ProcessOutcome::Applied,
            ProcessOutcome::Applied,
            soft(ProcessorSoftFailures::InsufficientFunds),
            ProcessOutcome::Applied,
            ProcessOutcome::Applied,
            ProcessOutcome::Applied,
            ProcessOutcome::Applied,
        ]
    );
    assert_eq!(balances(&mut storage, 1), expected("-0.5", "0", "-0.5", true));
}

#[test]
fn an_empty_batch_changes_nothing() {
    let (storage, outcomes) = worked(vec![]);
    assert!(outcomes.is_empty());
    assert!(storage.all_accounts(0, 10).unwrap().is_empty());
}

#[test]
fn every_soft_failure_occurs_and_leaves_the_balances_alone() {
    let mut storage = LocalMemoryStorage::new();
    let (_, fault) = work_through(
        &mut storage,
        &vec![
            deposit(1, 1, 1000),
            withdrawal(1, 2, 100),
            deposit(2, 3, 500),
            dispute(2, 3),
            chargeback(2, 3),
            deposit(2, 4, 300),
        ],
    );
    assert_eq!(fault, None);
    let cases = [
        (deposit(1, 1, 5), ProcessorSoftFailures::AlreadyProcessed),
        (withdrawal(1, 1, 5), ProcessorSoftFailures::AlreadyProcessed),
        (deposit(1, 10, -1), ProcessorSoftFailures::NegativeAmount),
        (withdrawal(1, 10, -1), ProcessorSoftFailures::NegativeAmount),
        (withdrawal(1, 10, 901), ProcessorSoftFailures::InsufficientFunds),
        (withdrawal(2, 10, 1), ProcessorSoftFailures::AccountLocked),
        (withdrawal(2, 10, -1), ProcessorSoftFailures::AccountLocked),
        (dispute(1, 10), ProcessorSoftFailures::DisputedTransactionNotFound),
        (resolve(1, 1), ProcessorSoftFailures::DisputedTransactionNotFound),
        (chargeback(1, 1), ProcessorSoftFailures::DisputedTransactionNotFound),
        (dispute(1, 2), ProcessorSoftFailures::DisputeOnNonDeposit),
        (dispute(2, 1), ProcessorSoftFailures::ClientIdMismatch),
        (dispute(1, 4), ProcessorSoftFailures::ClientIdMismatch),
        (dispute(2, 2), ProcessorSoftFailures::ClientIdMismatch),
    ];
    for (refused, reason) in cases {
        assert_eq!(try_process_transaction(&mut storage, refused), Ok(soft(reason)));
        assert_eq!(balances(&mut storage, 1), expected("9", "0", "9", false));
        assert_eq!(balances(&mut storage, 2), expected("3", "0", "3", true));
    }
    assert!(!storage.has_transaction_been_processed(10).unwrap());
}

#[test]
fn a_refused_transaction_opens_the_account_unless_it_is_a_repetition() {
    let (storage, _) = worked(vec![withdrawal(7, 1, 100)]);
    assert_eq!(storage.all_accounts(0, 10).unwrap().len(), 1);
    let (storage, outcomes) = worked(vec![deposit(1, 1, 100), deposit(7, 1, 100)]);
    assert_eq!(outcomes[1], soft(ProcessorSoftFailures::AlreadyProcessed));
    assert_eq!(storage.all_accounts(0, 10).unwrap().len(), 1);
}

#[test]
fn a_balance_out_of_range_is_a_fault_and_changes_no_balance() {
    let mut storage = LocalMemoryStorage::new();
    let most = Transaction {
        amount: amount(LARGEST, 0),
        ..deposit(1, 1, 0)
    };
    let (outcomes, fault) = work_through(
        &mut storage,
        &vec![most, deposit(1, 2, 100), deposit(1, 3, 1)],
    );
    assert_eq!(outcomes, [ProcessOutcome::Applied]);
    assert_eq!(fault, Some(ProcessFault::AmountOutOfRange));
    let largest = LARGEST.to_string();
    assert_eq!(
        balances(&mut storage, 1),
        expected(&largest, "0", &largest, false)
    );
    assert!(!storage.has_transaction_been_processed(2).unwrap());
    assert!(!storage.has_transaction_been_processed(3).unwrap());
    assert_eq!(
        try_process_transaction(&mut storage, deposit(1, 2, 100)),
        Err(ProcessFault::AmountOutOfRange)
    );
}

#[test]
fn checked_operations_refuse_to_leave_the_range() {
    let rich = Account {
        available: amount(LARGEST, 0),
        held: amount(-LARGEST, 0),
        total: amount(-LARGEST, 0),
        ..Account::fresh(1)
    };
    let one = amount(1, 0);
    assert!(rich.checked_deposit(one).is_none());
    assert!(rich.checked_withdrawal(one).is_none());
    assert!(rich.checked_resolve(one).is_none());
    assert!(rich.checked_chargeback(one).is_none());
    let moved = rich.checked_dispute(one).unwrap();
    assert_eq!(moved.available, amount(LARGEST - 1, 0));
    assert_eq!(moved.held, amount(-LARGEST + 1, 0));
    assert_eq!(moved.total, amount(-LARGEST, 0));
}

#[test]
fn decisions_rest_on_what_they_are_given() {
    let account = Account {
        available: amount(500, 2),
        total: amount(500, 2),
        ..Account::fresh(1)
    };
    match decide(withdrawal(1, 9, 200), false, account, None) {
        Decision::Store(updated) => {
            assert_eq!(updated.available, amount(3, 0));
            assert_eq!(updated.total, amount(3, 0));
        }
        other => panic!("{other:?}"),
    }
    assert!(matches!(
        decide(withdrawal(1, 9, 200), true, account, None),
        Decision::Refuse(ProcessorSoftFailures::AlreadyProcessed)
    ));
    assert!(matches!(
        decide(dispute(1, 9), false, account, Some(withdrawal(1, 9, 200))),
        Decision::Refuse(ProcessorSoftFailures::DisputeOnNonDeposit)
    ));
    match decide(chargeback(1, 9), false, account, Some(deposit(1, 9, 200))) {
        Decision::Store(updated) => {
            assert_eq!(updated.available, amount(5, 0));
            assert_eq!(updated.held, amount(-2, 0));
            assert_eq!(updated.total, amount(3, 0));
            assert!(updated.locked);
        }
        other => panic!("{other:?}"),
    }
}

#[test]
fn a_resolve_undoes_a_dispute() {
    let (mut storage, _) = worked(vec![deposit(1, 1, 1234), deposit(1, 2, 100)]);
    let before = balances(&mut storage, 1);
    work_through(&mut storage, &vec![dispute(1, 1)]);
    assert_eq!(balances(&mut storage, 1), expected("1", "12.34", "13.34", false));
    work_through(&mut storage, &vec![resolve(1, 1)]);
    assert_eq!(balances(&mut storage, 1), before);
    assert!(storage.find_transaction(1).unwrap().is_some());
}

#[test]
fn a_resolve_does_not_undo_a_dispute_that_was_rounded() {
    let account = Account {
        available: amount(LARGEST, 0),
        ..Account::fresh(1)
    };
    let half = amount(5, 1);
    let disputed = account.checked_dispute(half).unwrap();
    assert_eq!(disputed.available, amount(LARGEST - 1, 0));
    let resolved = disputed.checked_resolve(half).unwrap();
    assert_eq!(resolved.available, amount(LARGEST - 1, 0));
}

#[test]
fn the_total_is_what_is_available_and_held() {
    let (mut storage, _) = worked(vec![
        deposit(1, 1, 1000),
        deposit(1, 2, 333),
        withdrawal(1, 3, 25),
        dispute(1, 2),
        dispute(1, 1),
        chargeback(1, 2),
    ]);
    assert_eq!(balances(&mut storage, 1), expected("-0.25", "10", "9.75", true));
}

#[test]
fn rounding_can_part_the_total_from_available_and_held() {
    let mut storage = LocalMemoryStorage::new();
    let (_, fault) = work_through(
        &mut storage,
        &vec![
            Transaction {
                amount: amount(LARGEST, 0),
                ..deposit(1, 1, 0)
            },
            dispute(1, 1),
            deposit(1, 2, 40),
        ],
    );
    assert_eq!(fault, None);
    let largest = LARGEST.to_string();
    assert_eq!(
        balances(&mut storage, 1),
        expected("0.4", &largest, &largest, false)
    );
}

#[test]
fn a_chargeback_is_final() {
    let (mut storage, outcomes) = worked(vec![
        deposit(1, 1, 1000),
        dispute(1, 1),
        chargeback(1, 1),
        chargeback(1, 1),
        resolve(1, 1),
        dispute(1, 1),
        deposit(1, 1, 1000),
    ]);
    let not_found = soft(ProcessorSoftFailures::DisputedTransactionNotFound);
    assert_eq!(outcomes[3..6], [not_found, not_found, not_found]);
    assert_eq!(outcomes[6], soft(ProcessorSoftFailures::AlreadyProcessed));
    assert_eq!(balances(&mut storage, 1), expected("0", "0", "0", true));
}

#[test]
fn a_locked_account_stays_locked_and_lets_no_withdrawal_through() {
    let (mut storage, outcomes) = worked(vec![
        deposit(1, 1, 1000),
        deposit(1, 2, 500),
        dispute(1, 1),
        chargeback(1, 1),
        withdrawal(1, 3, 100),
        deposit(1, 4, 700),
        dispute(1, 2),
        resolve(1, 2),
    ]);
    assert_eq!(outcomes[4], soft(ProcessorSoftFailures::AccountLocked));
    assert_eq!(outcomes[5..8], [ProcessOutcome::Applied; 3]);
    assert_eq!(balances(&mut storage, 1), expected("12", "0", "12", true));
}

#[test]
fn lifecycle_events_take_effect_once() {
    let not_found = soft(ProcessorSoftFailures::DisputedTransactionNotFound);
    let (mut storage, outcomes) = worked(vec![
        deposit(1, 1, 1000),
        dispute(1, 1),
        dispute(1, 1),
        resolve(1, 1),
        resolve(1, 1),
    ]);
    assert_eq!(outcomes[2], not_found);
    assert_eq!(outcomes[4], not_found);
    assert_eq!(balances(&mut storage, 1), expected("10", "0", "10", false));
}

#[test]
fn clients_do_not_affect_one_another() {
    let first = vec![deposit(1, 1, 1000), dispute(1, 1), chargeback(1, 1)];
    let second = vec![deposit(2, 2, 300), withdrawal(2, 4, 100)];
    let one: Vec<Transaction> = first.iter().chain(&second).copied().collect();
    let other = vec![second[0], first[0], first[1], second[1], first[2]];
    let (mut a, _) = worked(one);
    let (mut b, _) = worked(other);
    for client in [1, 2] {
        assert_eq!(balances(&mut a, client), balances(&mut b, client));
    }
    assert_eq!(balances(&mut a, 2), expected("2", "0", "2", false));
}

#[test]
fn clients_that_share_an_id_depend_on_the_order() {
    let (mut a, _) = worked(vec![deposit(1, 1, 100), deposit(2, 1, 100)]);
    let (mut b, _) = worked(vec![deposit(2, 1, 100), deposit(1, 1, 100)]);
    assert_eq!(balances(&mut a, 1), expected("1", "0", "1", false));
    assert_eq!(balances(&mut b, 1), expected("0", "0", "0", false));
}

#[test]
fn batches_add_up() {
    let txs = vec![
        deposit(1, 1, 1000),
        dispute(1, 1),
        withdrawal(1, 2, 100),
        resolve(1, 1),
        withdrawal(1, 3, 100),
    ];
    let (mut whole, outcomes) = worked(txs.clone());
    for cut in 0..=txs.len() {
        let (mut storage, mut in_batches) = worked(txs[..cut].to_vec());
        let (rest, fault) = work_through(&mut storage, &txs[cut..].to_vec());
        assert_eq!(fault, None);
        in_batches.extend(rest);
        assert_eq!(in_batches, outcomes);
        assert_eq!(balances(&mut storage, 1), balances(&mut whole, 1));
    }
    assert_eq!(balances(&mut whole, 1), expected("9", "0", "9", false));
}

#[test]
fn an_event_that_names_the_transaction_of_another_client_may_come_at_any_time() {
    let own = vec![deposit(1, 1, 1000), dispute(1, 1), resolve(1, 1), dispute(1, 1)];
    for stray in [dispute(2, 1), resolve(2, 1), chargeback(2, 1)] {
        for place in 0..=own.len() {
            let mut txs = own.clone();
            txs.insert(place, stray);
            let (mut storage, outcomes) = worked(txs);
            assert!(matches!(outcomes[place], ProcessOutcome::SoftFailed(_)));
            assert_eq!(balances(&mut storage, 1), expected("0", "10", "10", false));
            assert_eq!(balances(&mut storage, 2), expected("0", "0", "0", false));
        }
    }
}

#[test]
fn an_account_is_the_work_of_its_own_client() {
    let all = vec![
        deposit(1, 1, 1000),
        deposit(2, 2, 500),
        dispute(2, 1),
        dispute(1, 1),
        withdrawal(2, 3, 200),
        chargeback(1, 1),
        withdrawal(1, 4, 1),
        resolve(1, 2),
        deposit(3, 5, 7),
    ];
    let (mut together, _) = worked(all.clone());
    for client in [1u16, 2, 3] {
        let own = all.iter().copied().filter(|t| t.client_id == client).collect();
        let (mut alone, _) = worked(own);
        assert_eq!(balances(&mut alone, client), balances(&mut together, client));
    }
    assert_eq!(balances(&mut together, 1), expected("0", "0", "0", true));
    assert_eq!(balances(&mut together, 2), expected("3", "0", "3", false));
}

#[test]
fn accounts_do_not_depend_on_the_number_of_workers() {
    let mut all: Vec<Transaction> = Vec::new();
    for client in 1..=20u16 {
        let id = u32::from(client) * 10;
        all.push(deposit(client, id, 1000));
        all.push(withdrawal(client, id + 1, 250));
        all.push(dispute(client % 20 + 1, id));
        if client % 3 == 0 {
            all.push(dispute(client, id));
            all.push(chargeback(client, id));
        }
    }
    let (mut expected_storage, _) = worked(all.clone());
    for parallelism in [1usize, 2, 5] {
        let mut storage = LocalMemoryStorage::new();
        for channel in (0..parallelism).rev() {
            let queue: Vec<Transaction> = all
                .iter()
                .copied()
                .filter(|t| route(t.client_id, parallelism) == channel)
                .collect();
            assert_eq!(work_through(&mut storage, &queue).1, None);
        }
        for client in 1..=20u16 {
            assert_eq!(
                balances(&mut storage, client),
                balances(&mut expected_storage, client)
            );
        }
    }
}

/// What a storage of another kind fails with.
#[derive(Debug, Clone, Copy, PartialEq)]
enum Outage {
    Timeout(u32),
    Core(TransactionError),
}

/// A storage that fails with one error, at one of the calls.
struct Failing {
    inner: LocalMemoryStorage,
    call: &'static str,
    error: Outage,
}

impl Failing {
    fn at(&self, call: &str) -> Result<(), Outage> {
        if self.call == call {
            Err(self.error)
        } else {
            Ok(())
        }
    }
}

impl Storage for Failing {
    type Error = Outage;

    // The first three are only spoken of in contracts: nothing calls them.
    fn ledger(&self) -> Ledger {
        unreachable!()
    }

    fn listing(&self) -> vstd::seq::Seq<AccountView> {
        unreachable!()
    }

    fn faults(&self) -> vstd::set::Set<Outage> {
        unreachable!()
    }

    fn update_account_for_withdrawal_or_deposit(
        &mut self,
        tx: Transaction,
        account: Account,
    ) -> Result<(), Outage> {
        self.at("monetary")?;
        self.inner.update_account_for_withdrawal_or_deposit(tx, account).map_err(Outage::Core)
    }

    fn update_account_for_dispute(
        &mut self,
        tx: Transaction,
        account: Account,
    ) -> Result<(), Outage> {
        self.at("dispute")?;
        self.inner.update_account_for_dispute(tx, account).map_err(Outage::Core)
    }

    fn update_account_for_resolve(
        &mut self,
        tx: Transaction,
        account: Account,
    ) -> Result<(), Outage> {
        self.at("resolve")?;
        self.inner.update_account_for_resolve(tx, account).map_err(Outage::Core)
    }

    fn update_account_for_chargeback(
        &mut self,
        tx: Transaction,
        account: Account,
    ) -> Result<(), Outage> {
        self.at("chargeback")?;
        self.inner.update_account_for_chargeback(tx, account).map_err(Outage::Core)
    }

    fn get_account(&mut self, client_id: u16) -> Result<Account, Outage> {
        self.at("account")?;
        self.inner.get_account(client_id).map_err(Outage::Core)
    }

    fn find_transaction(&self, tx_id: u32) -> Result<Option<Transaction>, Outage> {
        self.at("find")?;
        self.inner.find_transaction(tx_id).map_err(Outage::Core)
    }

    fn find_disputed_transaction(
        &self,
        tx_id: u32,
    ) -> Result<Option<Transaction>, Outage> {
        self.at("find_disputed")?;
        self.inner.find_disputed_transaction(tx_id).map_err(Outage::Core)
    }

    fn has_transaction_been_processed(&self, tx_id: u32) -> Result<bool, Outage> {
        self.at("processed")?;
        self.inner.has_transaction_been_processed(tx_id).map_err(Outage::Core)
    }

    fn all_accounts(
        &self,
        page: usize,
        page_size: usize,
    ) -> Result<Vec<Account>, Outage> {
        self.at("list")?;
        self.inner.all_accounts(page, page_size).map_err(Outage::Core)
    }
}

#[test]
fn the_error_of_the_storage_is_handed_on() {
    let calls = [
        ("processed", 0),
        ("account", 0),
        ("monetary", 0),
        ("find", 1),
        ("dispute", 1),
        ("find_disputed", 2),
        ("resolve", 2),
        ("chargeback", 4),
    ];
    let txs = vec![
        deposit(1, 1, 1000),
        dispute(1, 1),
        resolve(1, 1),
        dispute(1, 1),
        chargeback(1, 1),
    ];
    for error in [
        Outage::Timeout(30),
        Outage::Core(TransactionError::StoreCorruptionDetected),
    ] {
        for (call, reached) in calls {
            let mut storage = Failing {
                inner: LocalMemoryStorage::new(),
                call,
                error,
            };
            let (outcomes, fault) = work_through(&mut storage, &txs);
            assert_eq!(outcomes, vec![ProcessOutcome::Applied; reached]);
            assert_eq!(fault, Some(ProcessFault::Storage(error)));
            assert_eq!(process_transaction(&mut storage, txs[reached]), Err(error));
        }
        let storage = Failing {
            inner: LocalMemoryStorage::new(),
            call: "list",
            error,
        };
        assert_eq!(account_report(&storage), Err(error));
        let processor = TransactionProcessor::builder()
            .parallelism(1)
            .storage(storage)
            .build();
        assert_eq!(processor.snapshot_accounts(0, 10).err(), Some(error));
    }
}
