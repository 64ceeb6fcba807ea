use std::path::PathBuf;

use transaction_processor::domain::TxType;
use transaction_processor::sources::csv_source::{
    is_ignorable_error, read_row, row_type, CsvErrorKind, CsvSource, CsvTransaction, RowAction,
};
use transaction_processor::{route, Amount};

fn row(client_id: u16, amount: Option<Amount>) -> CsvTransaction {
    CsvTransaction {
        tx_type: TxType::Withdrawal,
        client_id,
        tx_id: 17,
        amount,
    }
}

#[test]
fn a_row_becomes_a_transaction() {
    let tx = row(3, Amount::new(125, 2)).into_transaction();
    assert_eq!(tx.tx_type, TxType::Withdrawal);
    assert_eq!((tx.client_id, tx.tx_id), (3, 17));
    assert_eq!((tx.amount.mantissa(), tx.amount.scale()), (125, 2));
}

#[test]
fn a_missing_amount_is_zero() {
    let tx = row(3, None).into_transaction();
    assert_eq!((tx.amount.mantissa(), tx.amount.scale()), (0, 0));
}

#[test]
fn only_rows_of_no_known_type_are_ignorable() {
    assert!(is_ignorable_error(CsvErrorKind::InvalidType));
    for kind in [
        CsvErrorKind::Deserialize,
        CsvErrorKind::UnequalLengths,
        CsvErrorKind::Io,
        CsvErrorKind::Utf8,
        CsvErrorKind::Seek,
        CsvErrorKind::Serialize,
        CsvErrorKind::Other,
    ] {
        assert!(!is_ignorable_error(kind));
    }
}

#[test]
fn rows_go_to_the_channel_of_their_client() {
    for client_id in [0u16, 1, 42, 999, u16::MAX] {
        for sinks in [1usize, 2, 4, 7] {
            match CsvSource::row_action(Ok(row(client_id, None)), sinks) {
                RowAction::Send(channel, tx) => {
                    assert_eq!(channel, route(client_id, sinks));
                    assert!(channel < sinks);
                    assert_eq!(tx.client_id, client_id);
                }
                other => panic!("{other:?}"),
            }
        }
    }
}

#[test]
fn errors_skip_the_row_or_stop_the_reading() {
    assert!(matches!(
        CsvSource::row_action(Err(CsvErrorKind::InvalidType), 4),
        RowAction::Skip
    ));
    for kind in [
        CsvErrorKind::Io,
        CsvErrorKind::Utf8,
        CsvErrorKind::UnequalLengths,
        CsvErrorKind::Seek,
        CsvErrorKind::Serialize,
        CsvErrorKind::Deserialize,
        CsvErrorKind::Other,
    ] {
        assert!(matches!(CsvSource::row_action(Err(kind), 4), RowAction::Stop));
    }
}

#[test]
fn a_source_remembers_its_path() {
    let source = CsvSource::new(PathBuf::from("data/input.csv"));
    assert_eq!(source.path, PathBuf::from("data/input.csv"));
}

#[test]
fn types_go_by_their_names() {
    let names = [
        ("deposit", TxType::Deposit),
        ("withdrawal", TxType::Withdrawal),
        ("dispute", TxType::Dispute),
        ("resolve", TxType::Resolve),
        ("chargeback", TxType::Chargeback),
    ];
    for (name, tx_type) in names {
        assert_eq!(TxType::from_name(name), Some(tx_type));
        assert_eq!(row_type(Some(name)), Ok(tx_type));
    }
}

#[test]
fn a_row_of_no_known_type_is_invalid() {
    for name in ["", "Deposit", " deposit", "deposits", "deposi", "transfer", "1"] {
        assert_eq!(TxType::from_name(name), None);
        assert_eq!(row_type(Some(name)), Err(CsvErrorKind::InvalidType));
    }
    assert_eq!(row_type(None), Err(CsvErrorKind::InvalidType));
}

#[test]
fn the_type_of_a_row_is_judged_first() {
    let read = read_row(Some("dispute"), Ok((3, 17, None))).unwrap();
    assert_eq!(read.tx_type, TxType::Dispute);
    assert_eq!((read.client_id, read.tx_id), (3, 17));
    assert!(read.amount.is_none());
    let read = read_row(Some("deposit"), Ok((3, 17, Amount::new(125, 2)))).unwrap();
    assert_eq!(read.amount, Amount::new(125, 2));

    let unreadable = || Err(CsvErrorKind::Deserialize);
    assert_eq!(
        read_row(Some("deposit"), unreadable()).unwrap_err(),
        CsvErrorKind::Deserialize
    );
    for name in [Some("transfer"), Some(""), None] {
        assert_eq!(
            read_row(name, unreadable()).unwrap_err(),
            CsvErrorKind::InvalidType
        );
        assert_eq!(
            read_row(name, Ok((3, 17, None))).unwrap_err(),
            CsvErrorKind::InvalidType
        );
    }
}

#[test]
fn rows_are_fanned_out_in_order_up_to_the_end() {
    let client = |id: u16| Ok(row(id, None));
    let rows = [
        client(1),
        client(2),
        Err(CsvErrorKind::InvalidType),
        client(1),
        client(3),
        client(2),
        Err(CsvErrorKind::UnequalLengths),
        client(1),
    ];
    for sinks in [1usize, 2, 3] {
        let mut channels: Vec<Vec<u16>> = vec![Vec::new(); sinks];
        for row in rows {
            match CsvSource::row_action(row, sinks) {
                RowAction::Send(channel, tx) => channels[channel].push(tx.client_id),
                RowAction::Skip => {}
                RowAction::Stop => break,
            }
        }
        for (channel, sent) in channels.iter().enumerate() {
            let expected: Vec<u16> = [1, 2, 1, 3, 2]
                .into_iter()
                .filter(|c| route(*c, sinks) == channel)
                .collect();
            assert_eq!(*sent, expected);
        }
    }
}
