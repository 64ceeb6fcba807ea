//! Laws of the CSV source: what the rows of a file stand for, and what is done about them.

use crate::amount::Amount;
use crate::domain::{TxType, TxView};
use crate::sources::csv_source::{ActionView, CsvErrorKind, CsvTransaction, RowAction, RowView};
use vstd::prelude::*;

verus! {

/// The transaction that a row stands for has the type, the client and the id of the row, and its
/// amount, whatever the type; a row without an amount stands for a transaction of nothing.
pub proof fn law_rows_keep_their_fields(row: RowView)
    ensures
        row.transaction().tx_type == row.tx_type,
        row.transaction().client_id == row.client_id,
        row.transaction().tx_id == row.tx_id,
        row.amount matches Some(amount) ==> row.transaction().amount == amount,
        row.amount is None ==> row.transaction().amount.units() == 0,
{
}

/// Rows and actions are seen as they are.
pub proof fn law_row_views_show_everything(
    row: CsvTransaction,
    kind: CsvErrorKind,
    channel: usize,
    tx: crate::domain::Transaction,
)
    ensures
        row@.tx_type == row.tx_type,
        row@.client_id == row.client_id,
        row@.tx_id == row.tx_id,
        row.amount matches Some(amount) ==> row@.amount == Some(amount@),
        row.amount is None ==> row@.amount is None,
        crate::sources::csv_source::row_view(Ok(row)) == Ok::<RowView, CsvErrorKind>(row@),
        crate::sources::csv_source::row_view(Err(kind)) == Err::<RowView, CsvErrorKind>(kind),
        RowAction::Send(channel, tx)@ == ActionView::Send(channel, tx@),
        RowAction::Skip@ == ActionView::Skip,
        RowAction::Stop@ == ActionView::Stop,
{
}

/// Each type goes by one name, and nothing else is the name of a type.
pub proof fn law_types_go_by_their_names(name: Seq<char>)
    ensures
        TxType::named(name) == Some(TxType::Deposit) <==> name == "deposit"@,
        TxType::named(name) == Some(TxType::Withdrawal) <==> name == "withdrawal"@,
        TxType::named(name) == Some(TxType::Dispute) <==> name == "dispute"@,
        TxType::named(name) == Some(TxType::Resolve) <==> name == "resolve"@,
        TxType::named(name) == Some(TxType::Chargeback) <==> name == "chargeback"@,
{
    reveal_strlit("deposit");
    reveal_strlit("withdrawal");
    reveal_strlit("dispute");
    reveal_strlit("resolve");
    reveal_strlit("chargeback");
    // No two names agree in their lengths, their first and their third characters.
    assert("deposit"@.len() == 7 && "dispute"@.len() == 7 && "resolve"@.len() == 7);
    assert("withdrawal"@.len() == 10 && "chargeback"@.len() == 10);
    assert("deposit"@[2] != "dispute"@[2]);
    assert("deposit"@[0] != "resolve"@[0] && "dispute"@[0] != "resolve"@[0]);
    assert("withdrawal"@[0] != "chargeback"@[0]);
}

/// The type column of a row names its type, and a row without one has none.
pub proof fn law_the_type_column_names_the_type(name: &str)
    ensures
        crate::sources::csv_source::type_named(Some(name)) == TxType::named(name@),
        crate::sources::csv_source::type_named(None) is None,
{
}

/// A row of no known type is invalid whatever its other columns are; of any other row, an error in
/// the other columns is handed on, and otherwise every column is kept.
pub proof fn law_columns_make_the_row(
    name: Option<&str>,
    client_id: u16,
    tx_id: u32,
    amount: Option<Amount>,
    kind: CsvErrorKind,
)
    ensures
        ({
            let good = crate::sources::csv_source::row_read(name, Ok((client_id, tx_id, amount)));
            let bad = crate::sources::csv_source::row_read(name, Err(kind));
            let typed = name matches Some(n) && TxType::named(n@) is Some;
            &&& !typed ==> good == Err::<RowView, CsvErrorKind>(CsvErrorKind::InvalidType) && bad
                == Err::<RowView, CsvErrorKind>(CsvErrorKind::InvalidType)
            &&& typed ==> bad == Err::<RowView, CsvErrorKind>(kind)
            &&& typed ==> {
                &&& good is Ok
                &&& name matches Some(n) ==> TxType::named(n@) == Some(good->Ok_0.tx_type)
                &&& good->Ok_0.client_id == client_id
                &&& good->Ok_0.tx_id == tx_id
                &&& amount matches Some(a) ==> good->Ok_0.amount == Some(a@)
                &&& amount is None ==> good->Ok_0.amount is None
            }
        }),
{
}

/// Every row is sent to the channel of its client, with nothing lost; a row of no known type is
/// skipped; any other error ends the reading.
pub proof fn law_actions_follow_the_rows(row: RowView, kind: CsvErrorKind, sinks: usize)
    ensures
        crate::sources::csv_source::action_for(Ok(row), sinks) matches ActionView::Send(channel, tx)
            && {
            &&& channel == crate::sources::channel_of(row.client_id, sinks)
            &&& tx.tx_type == row.tx_type
            &&& tx.client_id == row.client_id
            &&& tx.tx_id == row.tx_id
            &&& row.amount matches Some(amount) ==> tx.amount == amount
            &&& row.amount is None ==> tx.amount.units() == 0
        },
        crate::sources::csv_source::action_for(Err(kind), sinks) is Skip <==> kind
            == CsvErrorKind::InvalidType,
        crate::sources::csv_source::action_for(Err(kind), sinks) is Stop <==> kind
            != CsvErrorKind::InvalidType,
{
}

/// The reading ends with the first error that is not that of a row of no known type.
pub proof fn law_what_ends_the_reading(
    rows: Seq<Result<RowView, CsvErrorKind>>,
    row: Result<RowView, CsvErrorKind>,
)
    ensures
        !crate::sources::csv_source::ended(Seq::empty()),
        crate::sources::csv_source::ended(rows.push(row)) <==> {
            ||| crate::sources::csv_source::ended(rows)
            ||| row matches Err(kind) && kind != CsvErrorKind::InvalidType
        },
{
    let more = rows.push(row);
    if crate::sources::csv_source::ended(rows) {
        let i = choose|i: int|
            0 <= i < rows.len() && ((#[trigger] rows[i]) matches Err(kind) && !(
            kind is InvalidType));
        assert(more[i] == rows[i]);
    }
    if crate::sources::csv_source::ended(more) {
        let i = choose|i: int|
            0 <= i < more.len() && ((#[trigger] more[i]) matches Err(kind) && !(
            kind is InvalidType));
        if i < rows.len() {
            assert(rows[i] == more[i]);
        }
    }
    assert(more[rows.len() as int] == row);
}

/// A file is read row by row: a row adds its transaction behind those of the rows before it, unless
/// the reading has ended; anything else adds nothing.
pub proof fn law_files_are_read_row_by_row(
    rows: Seq<Result<RowView, CsvErrorKind>>,
    row: Result<RowView, CsvErrorKind>,
)
    ensures
        ({
            let before = crate::sources::csv_source::transactions_of(rows);
            let after = crate::sources::csv_source::transactions_of(rows.push(row));
            &&& crate::sources::csv_source::transactions_of(Seq::empty()) == Seq::<TxView>::empty()
            &&& crate::sources::csv_source::ended(rows) ==> after == before
            &&& row is Err ==> after == before
            &&& !crate::sources::csv_source::ended(rows) ==> (row matches Ok(r) ==> {
                &&& after.len() == before.len() + 1
                &&& after.take(before.len() as int) == before
                &&& after.last().tx_type == r.tx_type
                &&& after.last().client_id == r.client_id
                &&& after.last().tx_id == r.tx_id
                &&& r.amount matches Some(amount) ==> after.last().amount == amount
                &&& r.amount is None ==> after.last().amount.units() == 0
            })
        }),
{
    assert(rows.push(row).drop_last() =~= rows);
    let before = crate::sources::csv_source::transactions_of(rows);
    if let Ok(r) = row {
        law_rows_keep_their_fields(r);
        assert(before.push(r.transaction()).take(before.len() as int) =~= before);
    }
}

} // verus!
