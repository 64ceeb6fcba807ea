//! The CSV source.
//!
//! Reading and parsing the file is asynchronous I/O and stays outside; what becomes of each row
//! is decided here.

use crate::amount::{Amount, Dec};
use crate::domain::{Transaction, TxType, TxView};
use crate::sources::route;
use std::path::PathBuf;
use vstd::prelude::*;

verus! {

/// `std::path::PathBuf`, carried through unread.
#[verifier::external_type_specification]
#[verifier::external_body]
pub struct ExPathBuf(std::path::PathBuf);

/// A row of a CSV file. It is separate from [`Transaction`] because the file has field names and
/// optional fields of its own: a row may have no amount.
#[derive(Debug, Clone, Copy)]
pub struct CsvTransaction {
    pub tx_type: TxType,
    pub client_id: u16,
    pub tx_id: u32,
    pub amount: Option<Amount>,
}

/// What a [`CsvTransaction`] says.
pub struct RowView {
    pub tx_type: TxType,
    pub client_id: u16,
    pub tx_id: u32,
    pub amount: Option<Dec>,
}

impl View for CsvTransaction {
    type V = RowView;

    open spec fn view(&self) -> RowView {
        RowView {
            tx_type: self.tx_type,
            client_id: self.client_id,
            tx_id: self.tx_id,
            amount: Dec::of(self.amount),
        }
    }
}

impl RowView {
    /// The transaction that a row stands for: a missing amount is zero.
    pub open spec fn transaction(self) -> TxView {
        TxView {
            tx_type: self.tx_type,
            client_id: self.client_id,
            tx_id: self.tx_id,
            amount: match self.amount {
                Some(amount) => amount,
                None => Dec::zero(),
            },
        }
    }
}

impl CsvTransaction {
    /// The transaction that this row stands for: a missing amount is zero.
    pub fn into_transaction(self) -> (r: Transaction)
        ensures
            r@ == self@.transaction(),
            r.tx_type == self.tx_type,
            r.client_id == self.client_id,
            r.tx_id == self.tx_id,
            self.amount matches Some(amount) ==> r.amount@ == amount@,
            self.amount is None ==> r.amount@.units() == 0,
    {
        let amount = match self.amount {
            Some(amount) => amount,
            None => Amount::zero(),
        };
        Transaction {
            tx_type: self.tx_type,
            client_id: self.client_id,
            tx_id: self.tx_id,
            amount,
        }
    }
}

/// What kind of error the reading of a row ended in.
#[derive(Debug, Clone, Copy, PartialEq, Eq, Structural)]
pub enum CsvErrorKind {
    /// The file could not be read.
    Io,
    /// The row is no valid text.
    Utf8,
    /// The row has another number of fields than the rows before it.
    UnequalLengths,
    /// The reader was moved before it had read the header.
    Seek,
    /// A row could not be written.
    Serialize,
    /// A field of the row, other than its type, cannot be read.
    Deserialize,
    /// The type of the row is missing, or is none that transactions have.
    InvalidType,
    /// Any other kind.
    Other,
}

/// Whether the row that this kind of error came from is skipped: that is so of a row whose type is
/// no type of transaction. Every other error ends the reading.
pub fn is_ignorable_error(kind: CsvErrorKind) -> (r: bool)
    ensures
        r == (kind is InvalidType),
{
    match kind {
        CsvErrorKind::InvalidType => true,
        _ => false,
    }
}

/// The type that the type column of a row names, if there is such a column and such a type.
pub open spec fn type_named(name: Option<&str>) -> Option<TxType> {
    match name {
        Some(name) => TxType::named(name@),
        None => None,
    }
}

/// The type that the type column of a row names, if the row has one.
pub fn row_type(name: Option<&str>) -> (r: Result<TxType, CsvErrorKind>)
    ensures
        r == match type_named(name) {
            Some(tx_type) => Ok::<TxType, CsvErrorKind>(tx_type),
            None => Err(CsvErrorKind::InvalidType),
        },
{
    match name {
        Some(name) => match TxType::from_name(name) {
            Some(tx_type) => Ok(tx_type),
            None => Err(CsvErrorKind::InvalidType),
        },
        None => Err(CsvErrorKind::InvalidType),
    }
}

/// The row that a type column and the other columns make, or the error that comes in its place.
pub open spec fn row_read(
    name: Option<&str>,
    rest: Result<(u16, u32, Option<Amount>), CsvErrorKind>,
) -> Result<RowView, CsvErrorKind> {
    match (type_named(name), rest) {
        (None, _) => Err(CsvErrorKind::InvalidType),
        (Some(_), Err(kind)) => Err(kind),
        (Some(tx_type), Ok((client_id, tx_id, amount))) => Ok(
            RowView { tx_type, client_id, tx_id, amount: Dec::of(amount) },
        ),
    }
}

/// Puts a row together out of its type column and what came of reading its other columns: the
/// client, the transaction id and the amount. The type comes first: where it is none that
/// transactions have, it does not matter what became of the others.
pub fn read_row(
    name: Option<&str>,
    rest: Result<(u16, u32, Option<Amount>), CsvErrorKind>,
) -> (r: Result<CsvTransaction, CsvErrorKind>)
    ensures
        row_view(r) == row_read(name, rest),
{
    match row_type(name) {
        Ok(tx_type) => match rest {
            Ok((client_id, tx_id, amount)) => Ok(
                CsvTransaction { tx_type, client_id, tx_id, amount },
            ),
            Err(kind) => Err(kind),
        },
        Err(kind) => Err(kind),
    }
}

/// What a row, or the error that came in its place, says.
pub open spec fn row_view(row: Result<CsvTransaction, CsvErrorKind>) -> Result<
    RowView,
    CsvErrorKind,
> {
    match row {
        Ok(row) => Ok(row@),
        Err(kind) => Err(kind),
    }
}

/// What the source does about a row.
#[derive(Debug, Clone, Copy)]
pub enum RowAction {
    /// Send the transaction to the channel with this index.
    Send(usize, Transaction),
    /// Go on with the next row.
    Skip,
    /// Stop reading and report the error.
    Stop,
}

/// What a [`RowAction`] says.
pub enum ActionView {
    /// The transaction is sent to the channel with this index.
    Send(usize, TxView),
    /// The reading goes on with the next row.
    Skip,
    /// The reading ends.
    Stop,
}

impl View for RowAction {
    type V = ActionView;

    open spec fn view(&self) -> ActionView {
        match *self {
            RowAction::Send(channel, tx) => ActionView::Send(channel, tx@),
            RowAction::Skip => ActionView::Skip,
            RowAction::Stop => ActionView::Stop,
        }
    }
}

/// What is done about a row, or about the error that came in its place, when the rows are fanned
/// out to `sinks` channels.
pub open spec fn action_for(row: Result<RowView, CsvErrorKind>, sinks: usize) -> ActionView {
    match row {
        Ok(row) => ActionView::Send(
            crate::sources::channel_of(row.client_id, sinks),
            row.transaction(),
        ),
        Err(CsvErrorKind::InvalidType) => ActionView::Skip,
        Err(_) => ActionView::Stop,
    }
}

/// Whether there is an error among the rows that ends the reading.
pub open spec fn ended(rows: Seq<Result<RowView, CsvErrorKind>>) -> bool {
    exists|i: int|
        0 <= i < rows.len() && ((#[trigger] rows[i]) matches Err(kind) && !(kind is InvalidType))
}

/// The transactions that a file stands for, in order: those of its rows up to the first error that
/// ends the reading, without the rows of no known type.
pub open spec fn transactions_of(rows: Seq<Result<RowView, CsvErrorKind>>) -> Seq<TxView>
    decreases rows.len(),
{
    if rows.len() == 0 {
        Seq::empty()
    } else {
        let before = transactions_of(rows.drop_last());
        match rows.last() {
            Ok(row) if !ended(rows.drop_last()) => before.push(row.transaction()),
            _ => before,
        }
    }
}

/// Whether one of the actions that the rows lead to ends the reading.
pub open spec fn stopped(rows: Seq<Result<RowView, CsvErrorKind>>, sinks: usize) -> bool {
    exists|i: int| 0 <= i < rows.len() && action_for(#[trigger] rows[i], sinks) is Stop
}

/// What is sent to one of the channels, in order, when the action of each row is carried out until
/// one of them ends the reading.
pub open spec fn sent(
    rows: Seq<Result<RowView, CsvErrorKind>>,
    sinks: usize,
    channel: usize,
) -> Seq<TxView>
    decreases rows.len(),
{
    if rows.len() == 0 {
        Seq::empty()
    } else {
        let before = sent(rows.drop_last(), sinks, channel);
        match action_for(rows.last(), sinks) {
            ActionView::Send(to, tx) if to == channel && !stopped(rows.drop_last(), sinks) =>
            before.push(tx),
            _ => before,
        }
    }
}

/// Single-instance CSV source. Reads rows and fans them out across bounded channels with the
/// router.
pub struct CsvSource {
    pub path: PathBuf,
}

impl CsvSource {
    /// A source that reads the file at `path`.
    pub fn new(path: PathBuf) -> (r: CsvSource)
        ensures
            r.path == path,
    {
        CsvSource { path }
    }

    /// What is done about a row, or about the error that came in its place, when the rows are
    /// fanned out to `sinks` channels.
    pub fn row_action(row: Result<CsvTransaction, CsvErrorKind>, sinks: usize) -> (r: RowAction)
        ensures
            r@ == action_for(row_view(row), sinks),
            r matches RowAction::Send(channel, _) ==> channel < sinks || channel == 0,
    {
        match row {
            Ok(row) => {
                let tx = row.into_transaction();
                RowAction::Send(route(tx.client_id, sinks), tx)
            },
            Err(kind) => {
                if is_ignorable_error(kind) {
                    RowAction::Skip
                } else {
                    RowAction::Stop
                }
            },
        }
    }
}

} // verus!
