//! Laws of the clients: an account is the work of its own client's transactions alone.

use crate::domain::TxView;
use crate::ledger::Ledger;
use crate::sources::csv_source::{CsvErrorKind, RowView};
use vstd::prelude::*;

verus! {

/// Picks the transactions of one client.
pub open spec fn of_client(client_id: u16) -> spec_fn(TxView) -> bool {
    |t: TxView| t.client_id == client_id
}

/// Whether no id is used by deposits or withdrawals of two clients.
pub open spec fn ids_keep_to_clients(txs: Seq<TxView>) -> bool {
    forall|i: int, j: int|
        0 <= i < txs.len() && 0 <= j < txs.len() && (#[trigger] txs[i]).tx_type.is_monetary() && (
        #[trigger] txs[j]).tx_type.is_monetary() && txs[i].tx_id == txs[j].tx_id
            ==> txs[i].client_id == txs[j].client_id
}

/// Picks the ids of the deposits and withdrawals of one client.
spec fn own_ids(txs: Seq<TxView>, client_id: u16) -> spec_fn(u32) -> bool {
    |id: u32|
        exists|i: int|
            0 <= i < txs.len() && (#[trigger] txs[i]).client_id == client_id
                && txs[i].tx_type.is_monetary() && txs[i].tx_id == id
}

/// A record, if it is one of this client.
spec fn own_record(records: Map<u32, TxView>, id: u32, client_id: u16) -> Option<TxView> {
    if records.contains_key(id) && records[id].client_id == client_id {
        Some(records[id])
    } else {
        None
    }
}

/// Whether two ledgers agree in everything that bears on the transactions of one client.
spec fn agree(l: Ledger, m: Ledger, client_id: u16, ids: spec_fn(u32) -> bool) -> bool {
    &&& l.account(client_id) == m.account(client_id)
    &&& forall|id: u32| #[trigger]
        own_record(l.transactions, id, client_id) == own_record(m.transactions, id, client_id)
    &&& forall|id: u32| #[trigger]
        own_record(l.disputed, id, client_id) == own_record(m.disputed, id, client_id)
    &&& forall|id: u32| #[trigger]
        ids(id) ==> l.processed.contains(id) == m.processed.contains(id)
}

/// A transaction of the client does the same to two ledgers that agree.
proof fn lemma_own_transaction(l: Ledger, m: Ledger, tx: TxView, ids: spec_fn(u32) -> bool)
    requires
        l.keyed(),
        l.filed(),
        m.keyed(),
        m.filed(),
        agree(l, m, tx.client_id, ids),
        tx.tx_type.is_monetary() ==> ids(tx.tx_id),
    ensures
        agree(l.after(tx), m.after(tx), tx.client_id, ids),
{
    let c = tx.client_id;
    let id = tx.tx_id;
    assert(own_record(l.transactions, id, c) == own_record(m.transactions, id, c));
    assert(own_record(l.disputed, id, c) == own_record(m.disputed, id, c));
    assert forall|k: u32| #[trigger]
        own_record(l.after(tx).transactions, k, c) == own_record(m.after(tx).transactions, k, c) by {
        assert(own_record(l.transactions, k, c) == own_record(m.transactions, k, c));
    }
    assert forall|k: u32| #[trigger]
        own_record(l.after(tx).disputed, k, c) == own_record(m.after(tx).disputed, k, c) by {
        assert(own_record(l.disputed, k, c) == own_record(m.disputed, k, c));
    }
}

/// A transaction of another client does nothing that bears on the client.
proof fn lemma_other_transaction(
    l: Ledger,
    m: Ledger,
    tx: TxView,
    client_id: u16,
    ids: spec_fn(u32) -> bool,
)
    requires
        l.keyed(),
        l.filed(),
        agree(l, m, client_id, ids),
        tx.client_id != client_id,
        tx.tx_type.is_monetary() ==> !ids(tx.tx_id),
    ensures
        agree(l.after(tx), m, client_id, ids),
{
    crate::laws::ledgers::law_other_accounts_are_untouched(l, tx, client_id);
    assert forall|k: u32| #[trigger]
        own_record(l.after(tx).transactions, k, client_id) == own_record(
            m.transactions,
            k,
            client_id,
        ) by {
        assert(own_record(l.transactions, k, client_id) == own_record(
            m.transactions,
            k,
            client_id,
        ));
    }
    assert forall|k: u32| #[trigger]
        own_record(l.after(tx).disputed, k, client_id) == own_record(m.disputed, k, client_id) by {
        assert(own_record(l.disputed, k, client_id) == own_record(m.disputed, k, client_id));
    }
}

/// At every point of a series, the ledger agrees with the one that the client's own transactions
/// up to that point lead to.
proof fn lemma_own_history(txs: Seq<TxView>, n: int, client_id: u16)
    requires
        ids_keep_to_clients(txs),
        0 <= n <= txs.len(),
    ensures
        agree(
            Ledger::empty().after_all(txs.take(n)),
            Ledger::empty().after_all(txs.take(n).filter(of_client(client_id))),
            client_id,
            own_ids(txs, client_id),
        ),
    decreases n,
{
    reveal(Seq::filter);
    let p = of_client(client_id);
    let ids = own_ids(txs, client_id);
    if n > 0 {
        lemma_own_history(txs, n - 1, client_id);
        let tx = txs[n - 1];
        let before = txs.take(n - 1);
        let l = Ledger::empty().after_all(before);
        let m = Ledger::empty().after_all(before.filter(p));
        crate::laws::ledgers::lemma_keyed_history(Ledger::empty(), before);
        crate::laws::ledgers::lemma_keyed_history(Ledger::empty(), before.filter(p));
        assert(txs.take(n).drop_last() =~= before);
        assert(txs.take(n).last() == tx);
        if tx.client_id == client_id {
            assert(p(tx));
            assert(tx.tx_type.is_monetary() ==> ids(tx.tx_id));
            assert(txs.take(n).filter(p) =~= before.filter(p).push(tx));
            assert(before.filter(p).push(tx).drop_last() =~= before.filter(p));
            lemma_own_transaction(l, m, tx, ids);
        } else {
            assert(!p(tx));
            lemma_other_transaction(l, m, tx, client_id, ids);
        }
    }
}

/// The account of a client is what the client's own transactions alone lead to, whatever the
/// transactions of other clients are, provided that no id is used by deposits or withdrawals of
/// two clients.
pub proof fn law_an_account_is_the_work_of_its_client(txs: Seq<TxView>, client_id: u16)
    requires
        ids_keep_to_clients(txs),
    ensures
        Ledger::empty().after_all(txs).account(client_id) == Ledger::empty().after_all(
            txs.filter(of_client(client_id)),
        ).account(client_id),
{
    lemma_own_history(txs, txs.len() as int, client_id);
    assert(txs.take(txs.len() as int) =~= txs);
}

/// Picking out of a wider pick is picking.
proof fn lemma_filter_twice(
    txs: Seq<TxView>,
    wide: spec_fn(TxView) -> bool,
    narrow: spec_fn(TxView) -> bool,
)
    requires
        forall|t: TxView| #[trigger] narrow(t) ==> wide(t),
    ensures
        txs.filter(wide).filter(narrow) == txs.filter(narrow),
    decreases txs.len(),
{
    reveal(Seq::filter);
    if txs.len() > 0 {
        let rest = txs.drop_last();
        lemma_filter_twice(rest, wide, narrow);
        if wide(txs.last()) {
            assert(rest.filter(wide).push(txs.last()).drop_last() =~= rest.filter(wide));
        }
    }
}

/// However many workers share the transactions, and however they interleave: when all have been
/// processed, the account of every client is what the client's own transactions alone, in the
/// order in which they came in, lead to. `schedule` is the order in which the workers process
/// them: through each channel they pass in the order in which they came in.
pub proof fn law_accounts_do_not_depend_on_the_workers(
    txs: Seq<TxView>,
    schedule: Seq<TxView>,
    parallelism: usize,
    client_id: u16,
)
    requires
        forall|channel: usize| #[trigger]
            crate::laws::schedules::queue(schedule, parallelism, channel)
                == crate::laws::schedules::queue(txs, parallelism, channel),
        ids_keep_to_clients(txs),
    ensures
        Ledger::empty().after_all(schedule).account(client_id) == Ledger::empty().after_all(
            txs.filter(of_client(client_id)),
        ).account(client_id),
{
    let p = of_client(client_id);
    let c = crate::sources::channel_of(client_id, parallelism);
    let q = crate::laws::schedules::on_channel(parallelism, c);
    assert(crate::laws::schedules::queue(schedule, parallelism, c)
        == crate::laws::schedules::queue(txs, parallelism, c));
    lemma_filter_twice(schedule, q, p);
    lemma_filter_twice(txs, q, p);
    assert forall|i: int| 0 <= i < schedule.len() implies txs.contains(#[trigger] schedule[i]) by {
        let t = schedule[i];
        let channel = crate::sources::channel_of(t.client_id, parallelism);
        let on = crate::laws::schedules::on_channel(parallelism, channel);
        assert(on(t));
        assert(crate::laws::schedules::queue(schedule, parallelism, channel)
            == crate::laws::schedules::queue(txs, parallelism, channel));
        schedule.lemma_filter_contains(on, i);
        txs.lemma_filter_contains_rev(on, t);
    }
    assert forall|i: int, j: int|
        0 <= i < schedule.len() && 0 <= j < schedule.len() && (
        #[trigger] schedule[i]).tx_type.is_monetary() && (
        #[trigger] schedule[j]).tx_type.is_monetary() && schedule[i].tx_id
            == schedule[j].tx_id implies schedule[i].client_id == schedule[j].client_id by {
        let a = choose|a: int| 0 <= a < txs.len() && txs[a] == schedule[i];
        let b = choose|b: int| 0 <= b < txs.len() && txs[b] == schedule[j];
        assert(txs[a].client_id == txs[b].client_id);
    }
    law_an_account_is_the_work_of_its_client(schedule, client_id);
}

/// Picks the rows of one client.
pub open spec fn rows_of_client(client_id: u16) -> spec_fn(Result<RowView, CsvErrorKind>) -> bool {
    |row: Result<RowView, CsvErrorKind>| row matches Ok(r) && r.client_id == client_id
}

/// Picking rows and picking transactions comes to the same, where no error ends the reading.
proof fn lemma_rows_of_client(rows: Seq<Result<RowView, CsvErrorKind>>, client_id: u16)
    requires
        !crate::sources::csv_source::ended(rows),
    ensures
        crate::sources::csv_source::transactions_of(rows.filter(rows_of_client(client_id)))
            == crate::sources::csv_source::transactions_of(rows).filter(of_client(client_id)),
        !crate::sources::csv_source::ended(rows.filter(rows_of_client(client_id))),
    decreases rows.len(),
{
    reveal(Seq::filter);
    if rows.len() > 0 {
        let rest = rows.drop_last();
        let p = rows_of_client(client_id);
        let before = crate::sources::csv_source::transactions_of(rest);
        assert forall|i: int| 0 <= i < rest.len() implies !((#[trigger] rest[i]) matches Err(kind)
            && !(kind is InvalidType)) by {
            assert(rest[i] == rows[i]);
        }
        lemma_rows_of_client(rest, client_id);
        if let Ok(row) = rows.last() {
            assert(before.push(row.transaction()).drop_last() =~= before);
        }
        if p(rows.last()) {
            assert(rest.filter(p).push(rows.last()).drop_last() =~= rest.filter(p));
        }
    }
}

/// When what was sent out of a file has been processed, the account of every client is what the
/// client's own valid rows alone lead to, in the order of the file, however many workers there are
/// and however they interleave. `schedule` is the order in which the workers process what was sent
/// to their channels.
pub proof fn law_an_account_is_the_work_of_its_rows(
    rows: Seq<Result<RowView, CsvErrorKind>>,
    schedule: Seq<TxView>,
    parallelism: usize,
    client_id: u16,
)
    requires
        forall|channel: usize| #[trigger]
            crate::laws::schedules::queue(schedule, parallelism, channel)
                == crate::sources::csv_source::sent(rows, parallelism, channel),
        ids_keep_to_clients(crate::sources::csv_source::transactions_of(rows)),
    ensures
        Ledger::empty().after_all(schedule).account(client_id) == Ledger::empty().after_all(
            crate::sources::csv_source::transactions_of(rows).filter(of_client(client_id)),
        ).account(client_id),
        !crate::sources::csv_source::ended(rows) ==> Ledger::empty().after_all(schedule).account(
            client_id,
        ) == Ledger::empty().after_all(
            crate::sources::csv_source::transactions_of(rows.filter(rows_of_client(client_id))),
        ).account(client_id),
{
    let txs = crate::sources::csv_source::transactions_of(rows);
    assert forall|channel: usize| #[trigger]
        crate::laws::schedules::queue(schedule, parallelism, channel)
            == crate::laws::schedules::queue(txs, parallelism, channel) by {
        crate::laws::schedules::law_rows_are_fanned_out_in_order(rows, parallelism, channel);
    }
    law_accounts_do_not_depend_on_the_workers(txs, schedule, parallelism, client_id);
    if !crate::sources::csv_source::ended(rows) {
        lemma_rows_of_client(rows, client_id);
    }
}

} // verus!
