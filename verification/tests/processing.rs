use rust_decimal::Decimal;
use transaction_processor::domain::{ProcessorSoftFailures, Transaction, TxType};
use transaction_processor::ports::{ProcessOutcome, Storage};
use transaction_processor::processor::process_transaction;
use transaction_processor::storage::local_memory::LocalMemoryStorage;
use transaction_processor::Amount;

fn d(v: f64) -> Amount {
    let decimal = Decimal::try_from(v).unwrap();
    Amount::new(decimal.mantissa(), decimal.scale()).unwrap()
}

fn make_tx(tx_type: TxType, client_id: u16, tx_id: u32, amount: f64) -> Transaction {
    Transaction {
        tx_type,
        client_id,
        tx_id,
        amount: d(amount),
    }
}

fn plus(a: Amount, b: Amount) -> Amount {
    a.checked_add(b).unwrap()
}

fn minus(a: Amount, b: Amount) -> Amount {
    a.checked_sub(b).unwrap()
}

/// Run a transaction and return the outcome. Panics on fatal errors: reaching that branch would
/// mean a storage fault or violated invariant, which a test should never silently accept.
fn run(storage: &mut LocalMemoryStorage, transaction: Transaction) -> ProcessOutcome {
    process_transaction(storage, transaction).expect("process_transaction returned a fatal error")
}

// -------------------------------------------------------------------------
// Deposit
// -------------------------------------------------------------------------

#[test]
fn deposit_increases_available_and_total() {
    let mut storage = LocalMemoryStorage::new();
    run(&mut storage, make_tx(TxType::Deposit, 1, 1, 100.0));

    let account = storage.get_account(1).unwrap();
    assert_eq!(account.available, d(100.0));
    assert_eq!(account.total, d(100.0));
    assert_eq!(account.held, Amount::zero());
    assert!(!account.locked);
}

#[test]
fn deposit_negative_amount_is_ignored() {
    let mut storage = LocalMemoryStorage::new();
    let outcome = run(&mut storage, make_tx(TxType::Deposit, 1, 1, -50.0));
    assert_eq!(
        outcome,
        ProcessOutcome::SoftFailed(ProcessorSoftFailures::NegativeAmount)
    );

    let account = storage.get_account(1).unwrap();
    assert_eq!(account.available, Amount::zero());
    assert_eq!(account.total, Amount::zero());
}

#[test]
fn deposit_on_locked_account_still_increases_balance() {
    let mut storage = LocalMemoryStorage::new();
    // Lock the account via a chargeback
    run(&mut storage, make_tx(TxType::Deposit, 1, 1, 100.0));
    run(&mut storage, make_tx(TxType::Dispute, 1, 1, 0.0));
    run(&mut storage, make_tx(TxType::Chargeback, 1, 1, 0.0));
    assert!(storage.get_account(1).unwrap().locked);

    // A deposit on a locked account must still be credited
    run(&mut storage, make_tx(TxType::Deposit, 1, 2, 50.0));

    let account = storage.get_account(1).unwrap();
    assert!(account.locked);
    assert_eq!(account.available, d(50.0));
    assert_eq!(account.total, d(50.0));
}

// -------------------------------------------------------------------------
// Withdrawal
// -------------------------------------------------------------------------

#[test]
fn withdrawal_decreases_available_and_total() {
    let mut storage = LocalMemoryStorage::new();
    run(&mut storage, make_tx(TxType::Deposit, 1, 1, 100.0));
    run(&mut storage, make_tx(TxType::Withdrawal, 1, 2, 40.0));

    let account = storage.get_account(1).unwrap();
    assert_eq!(account.available, d(60.0));
    assert_eq!(account.total, d(60.0));
    assert_eq!(account.held, Amount::zero());
}

#[test]
fn withdrawal_negative_amount_is_ignored() {
    let mut storage = LocalMemoryStorage::new();
    run(&mut storage, make_tx(TxType::Deposit, 1, 1, 100.0));
    let outcome = run(&mut storage, make_tx(TxType::Withdrawal, 1, 2, -10.0));
    assert_eq!(
        outcome,
        ProcessOutcome::SoftFailed(ProcessorSoftFailures::NegativeAmount)
    );

    let account = storage.get_account(1).unwrap();
    assert_eq!(account.available, d(100.0));
    assert_eq!(account.total, d(100.0));
}

#[test]
fn withdrawal_with_insufficient_funds_is_ignored() {
    let mut storage = LocalMemoryStorage::new();
    run(&mut storage, make_tx(TxType::Deposit, 1, 1, 50.0));
    let outcome = run(&mut storage, make_tx(TxType::Withdrawal, 1, 2, 100.0));
    assert_eq!(
        outcome,
        ProcessOutcome::SoftFailed(ProcessorSoftFailures::InsufficientFunds)
    );

    let account = storage.get_account(1).unwrap();
    assert_eq!(account.available, d(50.0));
    assert_eq!(account.total, d(50.0));
}

#[test]
fn withdrawal_on_locked_account_is_ignored() {
    let mut storage = LocalMemoryStorage::new();
    // Two deposits so there are funds available after the chargeback removes one
    run(&mut storage, make_tx(TxType::Deposit, 1, 1, 100.0));
    run(&mut storage, make_tx(TxType::Deposit, 1, 2, 200.0));
    run(&mut storage, make_tx(TxType::Dispute, 1, 1, 0.0));
    run(&mut storage, make_tx(TxType::Chargeback, 1, 1, 0.0));

    let before = storage.get_account(1).unwrap();
    assert!(before.locked);

    let outcome = run(&mut storage, make_tx(TxType::Withdrawal, 1, 3, 50.0));
    assert_eq!(
        outcome,
        ProcessOutcome::SoftFailed(ProcessorSoftFailures::AccountLocked)
    );

    let after = storage.get_account(1).unwrap();
    assert_eq!(after.available, before.available);
    assert_eq!(after.total, before.total);
}

// -------------------------------------------------------------------------
// Dispute
// -------------------------------------------------------------------------

#[test]
fn dispute_moves_amount_from_available_to_held() {
    let mut storage = LocalMemoryStorage::new();
    run(&mut storage, make_tx(TxType::Deposit, 1, 1, 100.0));
    run(&mut storage, make_tx(TxType::Dispute, 1, 1, 0.0));

    let account = storage.get_account(1).unwrap();
    assert_eq!(account.available, Amount::zero());
    assert_eq!(account.held, d(100.0));
    assert_eq!(account.total, d(100.0));
    assert!(!account.locked);
}

#[test]
fn dispute_with_client_id_mismatch_is_ignored() {
    let mut storage = LocalMemoryStorage::new();
    run(&mut storage, make_tx(TxType::Deposit, 1, 1, 100.0));

    // Client 2 tries to dispute a transaction belonging to client 1
    let outcome = run(&mut storage, make_tx(TxType::Dispute, 2, 1, 0.0));
    assert_eq!(
        outcome,
        ProcessOutcome::SoftFailed(ProcessorSoftFailures::ClientIdMismatch)
    );

    let account = storage.get_account(1).unwrap();
    assert_eq!(account.available, d(100.0));
    assert_eq!(account.held, Amount::zero());
    assert_eq!(account.total, d(100.0));
}

#[test]
fn dispute_on_non_deposit_transaction_is_ignored() {
    let mut storage = LocalMemoryStorage::new();
    run(&mut storage, make_tx(TxType::Deposit, 1, 1, 100.0));
    run(&mut storage, make_tx(TxType::Withdrawal, 1, 2, 40.0));

    // Attempting to dispute the withdrawal (tx_id=2) — only deposits may be disputed
    let outcome = run(&mut storage, make_tx(TxType::Dispute, 1, 2, 0.0));
    assert_eq!(
        outcome,
        ProcessOutcome::SoftFailed(ProcessorSoftFailures::DisputeOnNonDeposit)
    );

    let account = storage.get_account(1).unwrap();
    assert_eq!(account.available, d(60.0));
    assert_eq!(account.held, Amount::zero());
    assert_eq!(account.total, d(60.0));
}

#[test]
fn dispute_on_locked_account_is_processed() {
    let mut storage = LocalMemoryStorage::new();
    // Lock the account
    run(&mut storage, make_tx(TxType::Deposit, 1, 1, 100.0));
    run(&mut storage, make_tx(TxType::Dispute, 1, 1, 0.0));
    run(&mut storage, make_tx(TxType::Chargeback, 1, 1, 0.0));

    // New deposit on the now-locked account
    run(&mut storage, make_tx(TxType::Deposit, 1, 2, 200.0));
    let before = storage.get_account(1).unwrap();
    assert!(before.locked);

    // Dispute on a locked account must still move funds to held
    run(&mut storage, make_tx(TxType::Dispute, 1, 2, 0.0));

    let after = storage.get_account(1).unwrap();
    assert_eq!(after.available, minus(before.available, d(200.0)));
    assert_eq!(after.held, plus(before.held, d(200.0)));
    assert_eq!(after.total, before.total);
    assert!(after.locked);
}

// -------------------------------------------------------------------------
// Resolve
// -------------------------------------------------------------------------

#[test]
fn resolve_returns_held_funds_to_available() {
    let mut storage = LocalMemoryStorage::new();
    run(&mut storage, make_tx(TxType::Deposit, 1, 1, 100.0));
    run(&mut storage, make_tx(TxType::Dispute, 1, 1, 0.0));
    run(&mut storage, make_tx(TxType::Resolve, 1, 1, 0.0));

    let account = storage.get_account(1).unwrap();
    assert_eq!(account.available, d(100.0));
    assert_eq!(account.held, Amount::zero());
    assert_eq!(account.total, d(100.0));
    assert!(!account.locked);
}

#[test]
fn resolve_with_client_id_mismatch_is_ignored() {
    let mut storage = LocalMemoryStorage::new();
    run(&mut storage, make_tx(TxType::Deposit, 1, 1, 100.0));
    run(&mut storage, make_tx(TxType::Dispute, 1, 1, 0.0));

    // Client 2 tries to resolve a dispute belonging to client 1
    let outcome = run(&mut storage, make_tx(TxType::Resolve, 2, 1, 0.0));
    assert_eq!(
        outcome,
        ProcessOutcome::SoftFailed(ProcessorSoftFailures::ClientIdMismatch)
    );

    let account = storage.get_account(1).unwrap();
    // Funds should remain held
    assert_eq!(account.available, Amount::zero());
    assert_eq!(account.held, d(100.0));
    assert_eq!(account.total, d(100.0));
}

#[test]
fn resolve_on_locked_account_is_processed() {
    let mut storage = LocalMemoryStorage::new();
    // Lock the account
    run(&mut storage, make_tx(TxType::Deposit, 1, 1, 50.0));
    run(&mut storage, make_tx(TxType::Dispute, 1, 1, 0.0));
    run(&mut storage, make_tx(TxType::Chargeback, 1, 1, 0.0));

    // New deposit, then dispute on the locked account
    run(&mut storage, make_tx(TxType::Deposit, 1, 2, 100.0));
    run(&mut storage, make_tx(TxType::Dispute, 1, 2, 0.0));
    let before = storage.get_account(1).unwrap();
    assert!(before.locked);

    // Resolve on a locked account must still release held funds
    run(&mut storage, make_tx(TxType::Resolve, 1, 2, 0.0));

    let after = storage.get_account(1).unwrap();
    assert_eq!(after.available, plus(before.available, d(100.0)));
    assert_eq!(after.held, minus(before.held, d(100.0)));
    assert_eq!(after.total, before.total);
    assert!(after.locked);
}

// -------------------------------------------------------------------------
// Chargeback
// -------------------------------------------------------------------------

#[test]
fn chargeback_removes_held_funds_and_locks_account() {
    let mut storage = LocalMemoryStorage::new();
    run(&mut storage, make_tx(TxType::Deposit, 1, 1, 100.0));
    run(&mut storage, make_tx(TxType::Dispute, 1, 1, 0.0));
    run(&mut storage, make_tx(TxType::Chargeback, 1, 1, 0.0));

    let account = storage.get_account(1).unwrap();
    assert_eq!(account.available, Amount::zero());
    assert_eq!(account.held, Amount::zero());
    assert_eq!(account.total, Amount::zero());
    assert!(account.locked);
}

#[test]
fn chargeback_with_client_id_mismatch_is_ignored() {
    let mut storage = LocalMemoryStorage::new();
    run(&mut storage, make_tx(TxType::Deposit, 1, 1, 100.0));
    run(&mut storage, make_tx(TxType::Dispute, 1, 1, 0.0));

    // Client 2 tries to chargeback a dispute belonging to client 1
    let outcome = run(&mut storage, make_tx(TxType::Chargeback, 2, 1, 0.0));
    assert_eq!(
        outcome,
        ProcessOutcome::SoftFailed(ProcessorSoftFailures::ClientIdMismatch)
    );

    let account = storage.get_account(1).unwrap();
    assert_eq!(account.held, d(100.0));
    assert_eq!(account.total, d(100.0));
    assert!(!account.locked);
}

#[test]
fn chargeback_on_already_locked_account_still_removes_held_funds() {
    let mut storage = LocalMemoryStorage::new();
    // First chargeback to lock the account
    run(&mut storage, make_tx(TxType::Deposit, 1, 1, 100.0));
    run(&mut storage, make_tx(TxType::Dispute, 1, 1, 0.0));
    run(&mut storage, make_tx(TxType::Chargeback, 1, 1, 0.0));
    assert!(storage.get_account(1).unwrap().locked);

    // Second deposit + dispute + chargeback on an already-locked account
    run(&mut storage, make_tx(TxType::Deposit, 1, 2, 200.0));
    run(&mut storage, make_tx(TxType::Dispute, 1, 2, 0.0));
    let before = storage.get_account(1).unwrap();

    run(&mut storage, make_tx(TxType::Chargeback, 1, 2, 0.0));

    let after = storage.get_account(1).unwrap();
    assert_eq!(after.held, minus(before.held, d(200.0)));
    assert_eq!(after.total, minus(before.total, d(200.0)));
    assert!(after.locked);
}

// -------------------------------------------------------------------------
// Idempotency
// -------------------------------------------------------------------------

#[test]
fn duplicate_withdrawals_and_deposits_are_processed_idempotently() {
    let mut storage = LocalMemoryStorage::new();
    run(&mut storage, make_tx(TxType::Deposit, 1, 1, 100.0));

    // The duplicate must surface as SoftFail(AlreadyProcessed) — this is
    // the central guarantee of `has_transaction_been_processed`.
    let dup = run(&mut storage, make_tx(TxType::Deposit, 1, 1, 100.0));
    assert_eq!(
        dup,
        ProcessOutcome::SoftFailed(ProcessorSoftFailures::AlreadyProcessed)
    );

    run(&mut storage, make_tx(TxType::Withdrawal, 1, 2, 30.0));
    run(&mut storage, make_tx(TxType::Deposit, 1, 1, 100.0));
    run(&mut storage, make_tx(TxType::Withdrawal, 1, 2, 30.0));
    run(&mut storage, make_tx(TxType::Withdrawal, 1, 2, 30.0));

    let account = storage.get_account(1).unwrap();
    assert_eq!(account.available, d(70.0));
    assert_eq!(account.total, d(70.0));
}

#[test]
fn duplicate_disputes_are_processed_idempotently() {
    let mut storage = LocalMemoryStorage::new();
    run(&mut storage, make_tx(TxType::Deposit, 1, 1, 100.0));
    run(&mut storage, make_tx(TxType::Dispute, 1, 1, 0.0));

    let after_first = storage.get_account(1).unwrap();
    assert_eq!(after_first.available, Amount::zero());
    assert_eq!(after_first.held, d(100.0));
    assert_eq!(after_first.total, d(100.0));

    // Second dispute — tx_id=1 has already moved out of `transactions`,
    // so the outcome is SoftFailed(DisputedTransactionNotFound), not an error.
    let dup = run(&mut storage, make_tx(TxType::Dispute, 1, 1, 0.0));
    assert_eq!(
        dup,
        ProcessOutcome::SoftFailed(ProcessorSoftFailures::DisputedTransactionNotFound)
    );
    run(&mut storage, make_tx(TxType::Dispute, 1, 1, 0.0));

    let after_duplicates = storage.get_account(1).unwrap();
    assert_eq!(after_duplicates.available, after_first.available);
    assert_eq!(after_duplicates.held, after_first.held);
    assert_eq!(after_duplicates.total, after_first.total);
}

#[test]
fn duplicate_resolves_are_processed_idempotently() {
    let mut storage = LocalMemoryStorage::new();
    run(&mut storage, make_tx(TxType::Deposit, 1, 1, 100.0));
    run(&mut storage, make_tx(TxType::Dispute, 1, 1, 0.0));
    run(&mut storage, make_tx(TxType::Resolve, 1, 1, 0.0));

    let after_first = storage.get_account(1).unwrap();
    assert_eq!(after_first.available, d(100.0));
    assert_eq!(after_first.held, Amount::zero());
    assert_eq!(after_first.total, d(100.0));

    // Duplicate resolves — tx_id=1 is no longer in disputed_transactions
    let dup = run(&mut storage, make_tx(TxType::Resolve, 1, 1, 0.0));
    assert_eq!(
        dup,
        ProcessOutcome::SoftFailed(ProcessorSoftFailures::DisputedTransactionNotFound)
    );
    run(&mut storage, make_tx(TxType::Resolve, 1, 1, 0.0));

    let after_duplicates = storage.get_account(1).unwrap();
    assert_eq!(after_duplicates.available, after_first.available);
    assert_eq!(after_duplicates.held, after_first.held);
    assert_eq!(after_duplicates.total, after_first.total);
}

#[test]
fn duplicate_chargebacks_are_processed_idempotently() {
    let mut storage = LocalMemoryStorage::new();
    run(&mut storage, make_tx(TxType::Deposit, 1, 1, 100.0));
    run(&mut storage, make_tx(TxType::Dispute, 1, 1, 0.0));
    run(&mut storage, make_tx(TxType::Chargeback, 1, 1, 0.0));

    let after_first = storage.get_account(1).unwrap();
    assert_eq!(after_first.available, Amount::zero());
    assert_eq!(after_first.held, Amount::zero());
    assert_eq!(after_first.total, Amount::zero());
    assert!(after_first.locked);

    // Duplicate chargebacks — tx_id=1 is no longer in disputed_transactions
    let dup = run(&mut storage, make_tx(TxType::Chargeback, 1, 1, 0.0));
    assert_eq!(
        dup,
        ProcessOutcome::SoftFailed(ProcessorSoftFailures::DisputedTransactionNotFound)
    );
    run(&mut storage, make_tx(TxType::Chargeback, 1, 1, 0.0));

    let after_duplicates = storage.get_account(1).unwrap();
    assert_eq!(after_duplicates.available, after_first.available);
    assert_eq!(after_duplicates.held, after_first.held);
    assert_eq!(after_duplicates.total, after_first.total);
    assert!(after_duplicates.locked);
}
