use transaction_processor::domain::{Account, Transaction, TxType};
use transaction_processor::paging::take_page;
use transaction_processor::ports::Storage;
use transaction_processor::processor::process_transaction;
use transaction_processor::report::{
    account_report, csv_header, format_account, format_accounts, format_balance,
};
use transaction_processor::storage::local_memory::LocalMemoryStorage;
use transaction_processor::{Amount, TransactionProcessor};

fn amount(mantissa: i128, scale: u32) -> Amount {
    Amount::new(mantissa, scale).unwrap()
}

fn deposit(client_id: u16, tx_id: u32, amount: Amount) -> Transaction {
    Transaction {
        tx_type: TxType::Deposit,
        client_id,
        tx_id,
        amount,
    }
}

/// A storage in which the clients from 1 to `n` have deposited their own number.
fn storage_with(n: u16) -> LocalMemoryStorage {
    let mut storage = LocalMemoryStorage::new();
    for client in 1..=n {
        process_transaction(
            &mut storage,
            deposit(client, u32::from(client), amount(i128::from(client), 0)),
        )
        .unwrap();
    }
    storage
}

#[test]
fn header_names_the_columns() {
    assert_eq!(csv_header(), "client,available,held,total,locked");
}

#[test]
fn balances_are_rounded_to_four_places_and_stripped() {
    assert_eq!(format_balance(amount(15, 1)), "1.5");
    assert_eq!(format_balance(amount(15000, 4)), "1.5");
    assert_eq!(format_balance(amount(100, 2)), "1");
    assert_eq!(format_balance(amount(123456, 5)), "1.2346");
    assert_eq!(format_balance(amount(123425, 5)), "1.2342");
    assert_eq!(format_balance(amount(123435, 5)), "1.2344");
    assert_eq!(format_balance(amount(-123456, 5)), "-1.2346");
    assert_eq!(format_balance(amount(1, 28)), "0");
    assert_eq!(format_balance(amount(-1, 28)), "0");
    assert_eq!(format_balance(Amount::zero()), "0");
    assert_eq!(format_balance(amount(1000, 0)), "1000");
}

#[test]
fn a_line_shows_one_account() {
    let account = Account {
        client_id: 10203,
        available: amount(15, 1),
        held: amount(0, 4),
        total: amount(-20500, 3),
        locked: true,
    };
    assert_eq!(format_account(&account), "10203,1.5,0,-20.5,true");
    assert_eq!(format_account(&Account::fresh(0)), "0,0,0,0,false");
    assert_eq!(format_account(&Account::fresh(65535)), "65535,0,0,0,false");
    assert_eq!(
        format_accounts(&vec![Account::fresh(9), account]),
        ["9,0,0,0,false", "10203,1.5,0,-20.5,true"]
    );
}

#[test]
fn an_empty_storage_gives_the_header_alone() {
    let storage = LocalMemoryStorage::new();
    assert_eq!(
        account_report(&storage).unwrap(),
        ["client,available,held,total,locked"]
    );
}

#[test]
fn the_report_shows_every_account_once_over_several_pages() {
    for n in [1u16, 511, 512, 513, 1200] {
        let storage = storage_with(n);
        let report = account_report(&storage).unwrap();
        assert_eq!(report[0], "client,available,held,total,locked");
        let mut lines: Vec<String> = report[1..].to_vec();
        lines.sort();
        let mut expected: Vec<String> = (1..=n).map(|c| format!("{c},{c},0,{c},false")).collect();
        expected.sort();
        assert_eq!(lines, expected);
    }
}

#[test]
fn pages_are_consecutive_and_bounded() {
    let storage = storage_with(7);
    let mut seen: Vec<u16> = Vec::new();
    let mut sizes: Vec<usize> = Vec::new();
    let mut page = 0;
    loop {
        let accounts = storage.all_accounts(page, 3).unwrap();
        if accounts.is_empty() {
            break;
        }
        sizes.push(accounts.len());
        for account in accounts {
            seen.push(account.client_id);
        }
        page += 1;
    }
    assert_eq!(sizes, [3, 3, 1]);
    seen.sort();
    assert_eq!(seen, [1, 2, 3, 4, 5, 6, 7]);

    let whole: Vec<u16> = storage
        .all_accounts(0, 7)
        .unwrap()
        .iter()
        .map(|a| a.client_id)
        .collect();
    let second: Vec<u16> = storage
        .all_accounts(1, 3)
        .unwrap()
        .iter()
        .map(|a| a.client_id)
        .collect();
    assert_eq!(second, whole[3..6]);
}

#[test]
fn pages_of_no_size_and_pages_past_the_end_are_empty() {
    let accounts = vec![Account::fresh(1), Account::fresh(2), Account::fresh(3)];
    assert!(take_page(&accounts, 0, 0).is_empty());
    assert!(take_page(&accounts, 5, 0).is_empty());
    assert!(take_page(&accounts, 1, 3).is_empty());
    assert!(take_page(&accounts, 1, usize::MAX).is_empty());
    assert_eq!(take_page(&accounts, 0, usize::MAX).len(), 3);
    let last = take_page(&accounts, 1, 2);
    assert_eq!(last.len(), 1);
    assert_eq!(last[0].client_id, 3);
}

#[test]
fn snapshots_page_through_the_storage() {
    let processor = TransactionProcessor::builder()
        .parallelism(1)
        .storage(storage_with(3))
        .build();
    assert_eq!(processor.snapshot_accounts(0, 2).unwrap().len(), 2);
    assert_eq!(processor.snapshot_accounts(1, 2).unwrap().len(), 1);
    assert!(processor.snapshot_accounts(2, 2).unwrap().is_empty());
    assert_eq!(processor.storage().all_accounts(0, 10).unwrap().len(), 3);
}
