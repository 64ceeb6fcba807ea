//! Laws of the fan-out: what goes through each channel, and that how the workers interleave makes no
//! difference.

use crate::domain::TxView;
use crate::ledger::{Ledger, Ruling};
use crate::ports::ProcessOutcome;
use crate::sources::csv_source::{CsvErrorKind, RowView};
use vstd::prelude::*;

verus! {

/// The router stays within the channels there are.
pub proof fn law_route_is_in_range(key: u16, parallelism: usize)
    requires
        parallelism >= 1,
    ensures
        crate::sources::channel_of(key, parallelism) < parallelism,
{
}

/// A key goes to the channel whose number is the remainder of its hash, so that every channel is
/// used; where there is one channel or none, to the first.
pub proof fn law_channels_are_remainders_of_hashes(hash: u64, parallelism: usize)
    ensures
        parallelism >= 1 ==> crate::sources::channel_for_hash(hash, parallelism) == (hash as usize)
            % parallelism,
        parallelism == 0 ==> crate::sources::channel_for_hash(hash, parallelism) == 0,
{
}

/// There are as many workers as were asked for, or else as there are logical CPUs, but never none.
pub proof fn law_there_is_always_a_worker(requested: Option<usize>, cpus: usize)
    ensures
        crate::processor::worker_count(requested, cpus) >= 1,
        requested matches Some(n) ==> n >= 1 ==> crate::processor::worker_count(requested, cpus)
            == n,
        requested is None && cpus >= 1 ==> crate::processor::worker_count(requested, cpus) == cpus,
        requested == Some(0usize) ==> crate::processor::worker_count(requested, cpus) == 1,
        requested is None && cpus == 0 ==> crate::processor::worker_count(requested, cpus) == 1,
{
}

/// A history is made of one transaction after the other.
pub proof fn law_histories_go_one_by_one(l: Ledger, txs: Seq<TxView>, tx: TxView)
    ensures
        l.after_all(Seq::empty()) == l,
        l.after_all(seq![tx]) == l.after(tx),
        l.after_all(txs.push(tx)) == l.after_all(txs).after(tx),
{
    assert(txs.push(tx).drop_last() =~= txs);
    assert(seq![tx].drop_last() =~= Seq::empty());
    assert(l.after_all(seq![tx].drop_last()) == l);
}

/// A transaction that is refused fails softly, for the reason it is refused for; one that is stored
/// is applied.
pub proof fn law_outcomes_follow_the_rulings(ruling: Ruling)
    ensures
        ruling matches Ruling::Refuse(reason) ==> crate::processor::outcome_of(ruling)
            == ProcessOutcome::SoftFailed(reason),
        ruling is Store ==> crate::processor::outcome_of(ruling) == ProcessOutcome::Applied,
{
}

/// A worker may take its transactions in batches: one batch after the other leads where the whole
/// series leads.
pub proof fn law_batches_add_up(l: Ledger, first: Seq<TxView>, second: Seq<TxView>)
    ensures
        l.after_all(first + second) == l.after_all(first).after_all(second),
    decreases second.len(),
{
    if second.len() == 0 {
        assert(first + second =~= first);
    } else {
        law_batches_add_up(l, first, second.drop_last());
        assert((first + second).drop_last() =~= first + second.drop_last());
        assert((first + second).last() == second.last());
    }
}

/// Whether two transactions can be told apart by whom they concern and what they record: they are
/// of different clients, and not both deposits or withdrawals with the same id.
pub open spec fn independent(a: TxView, b: TxView) -> bool {
    &&& a.client_id != b.client_id
    &&& a.tx_type.is_monetary() && b.tx_type.is_monetary() ==> a.tx_id != b.tx_id
}

/// What becomes of a transaction does not depend on an independent one having been processed
/// before, but for the reason of a refusal; and it concerns the account of its own client.
proof fn lemma_ruling_is_unaffected(l: Ledger, a: TxView, b: TxView)
    requires
        l.keyed(),
        l.filed(),
        independent(a, b),
    ensures
        l.after(a).ruling(b) == l.ruling(b) || (l.after(a).ruling(b) is Refuse && l.ruling(
            b,
        ) is Refuse && !b.tx_type.is_monetary()),
        a.tx_id != b.tx_id ==> l.after(a).ruling(b) == l.ruling(b),
        l.ruling(b) matches Ruling::Store(account) ==> account.client_id == b.client_id,
{
    crate::laws::ledgers::law_other_accounts_are_untouched(l, a, b.client_id);
    if a.tx_id != b.tx_id {
        crate::laws::ledgers::law_other_transactions_are_untouched(l, a, b.tx_id);
    }
}

/// What is done about two transactions of different clients, which have different ids or are not
/// both applied, can be done in either order.
proof fn lemma_enactments_commute(l: Ledger, a: TxView, ra: Ruling, b: TxView, rb: Ruling)
    requires
        a.client_id != b.client_id,
        a.tx_id != b.tx_id || !(ra is Store) || !(rb is Store),
        ra matches Ruling::Store(account) ==> account.client_id == a.client_id,
        rb matches Ruling::Store(account) ==> account.client_id == b.client_id,
    ensures
        l.enacted(a, ra).enacted(b, rb) == l.enacted(b, rb).enacted(a, ra),
{
    let one = l.enacted(a, ra).enacted(b, rb);
    let other = l.enacted(b, rb).enacted(a, ra);
    assert(one.accounts =~= other.accounts);
    assert(one.transactions =~= other.transactions);
    assert(one.disputed =~= other.disputed);
    assert(one.processed =~= other.processed);
}

/// Independent transactions do not affect one another: each is applied after the other if and only
/// if it is applied before it, with the same account, and they lead to the same ledger in either
/// order. Where their ids differ, the reason of a refusal is the same too.
pub proof fn law_independent_transactions_commute(l: Ledger, a: TxView, b: TxView)
    requires
        l.keyed(),
        l.filed(),
        independent(a, b),
    ensures
        l.after(a).ruling(b) == l.ruling(b) || (l.after(a).ruling(b) is Refuse && l.ruling(
            b,
        ) is Refuse),
        l.after(b).ruling(a) == l.ruling(a) || (l.after(b).ruling(a) is Refuse && l.ruling(
            a,
        ) is Refuse),
        a.tx_id != b.tx_id ==> l.after(a).ruling(b) == l.ruling(b) && l.after(b).ruling(a)
            == l.ruling(a),
        l.after(a).after(b) == l.after(b).after(a),
{
    lemma_ruling_is_unaffected(l, a, b);
    lemma_ruling_is_unaffected(l, b, a);
    lemma_enactments_commute(l, a, l.ruling(a), b, l.ruling(b));
    // A lifecycle event is never refused as already processed, so it is enacted in the same way
    // for whatever reason it is refused.
    assert(l.after(a).after(b) == l.after(a).enacted(b, l.ruling(b)));
    assert(l.after(b).after(a) == l.after(b).enacted(a, l.ruling(a)));
}

/// Picks the transactions that are sent to one of the channels.
pub open spec fn on_channel(parallelism: usize, channel: usize) -> spec_fn(TxView) -> bool {
    |t: TxView| crate::sources::channel_of(t.client_id, parallelism) == channel
}

/// What goes through one of the channels, in order.
pub open spec fn queue(txs: Seq<TxView>, parallelism: usize, channel: usize) -> Seq<TxView> {
    txs.filter(on_channel(parallelism, channel))
}

/// The rows of a file are fanned out by client: what is sent to a channel is what the file stands
/// for, as far as it belongs to clients of that channel, in the order of the file. Behind an error
/// that ends the reading nothing is sent.
pub proof fn law_rows_are_fanned_out_in_order(
    rows: Seq<Result<RowView, CsvErrorKind>>,
    sinks: usize,
    channel: usize,
)
    ensures
        crate::sources::csv_source::sent(rows, sinks, channel) == queue(
            crate::sources::csv_source::transactions_of(rows),
            sinks,
            channel,
        ),
        crate::sources::csv_source::stopped(rows, sinks) == crate::sources::csv_source::ended(rows),
    decreases rows.len(),
{
    reveal(Seq::filter);
    lemma_stopped_is_ended(rows, sinks);
    if rows.len() > 0 {
        let rest = rows.drop_last();
        law_rows_are_fanned_out_in_order(rest, sinks, channel);
        lemma_stopped_is_ended(rest, sinks);
        let before = crate::sources::csv_source::transactions_of(rest);
        if let Ok(row) = rows.last() {
            assert(before.push(row.transaction()).drop_last() =~= before);
            assert(on_channel(sinks, channel)(row.transaction()) <==> crate::sources::channel_of(
                row.client_id,
                sinks,
            ) == channel);
        }
    }
}

/// The action that ends the reading is the one for an error that ends it.
proof fn lemma_stopped_is_ended(rows: Seq<Result<RowView, CsvErrorKind>>, sinks: usize)
    ensures
        crate::sources::csv_source::stopped(rows, sinks) == crate::sources::csv_source::ended(rows),
{
    if crate::sources::csv_source::stopped(rows, sinks) {
        let i = choose|i: int|
            0 <= i < rows.len() && crate::sources::csv_source::action_for(
                #[trigger] rows[i],
                sinks,
            ) is Stop;
        assert(rows[i] matches Err(kind) && !(kind is InvalidType));
    }
    if crate::sources::csv_source::ended(rows) {
        let i = choose|i: int|
            0 <= i < rows.len() && ((#[trigger] rows[i]) matches Err(kind) && !(
            kind is InvalidType));
        assert(crate::sources::csv_source::action_for(rows[i], sinks) is Stop);
    }
}

/// Behind an error that ends the reading nothing counts, and nothing is sent.
pub proof fn law_nothing_is_sent_behind_the_end(
    rows: Seq<Result<RowView, CsvErrorKind>>,
    more: Seq<Result<RowView, CsvErrorKind>>,
    sinks: usize,
    channel: usize,
)
    requires
        crate::sources::csv_source::ended(rows),
    ensures
        crate::sources::csv_source::transactions_of(rows + more)
            == crate::sources::csv_source::transactions_of(rows),
        crate::sources::csv_source::sent(rows + more, sinks, channel)
            == crate::sources::csv_source::sent(rows, sinks, channel),
    decreases more.len(),
{
    if more.len() == 0 {
        assert(rows + more =~= rows);
    } else {
        let rest = more.drop_last();
        law_nothing_is_sent_behind_the_end(rows, rest, sinks, channel);
        assert((rows + more).drop_last() =~= rows + rest);
        assert(crate::sources::csv_source::ended(rows + rest)) by {
            let i = choose|i: int|
                0 <= i < rows.len() && ((#[trigger] rows[i]) matches Err(kind) && !(
                kind is InvalidType));
            assert((rows + rest)[i] == rows[i]);
        }
        lemma_stopped_is_ended(rows + rest, sinks);
    }
}

/// Whether deposits and withdrawals on different channels have different ids.
pub open spec fn ids_keep_to_channels(txs: Seq<TxView>, parallelism: usize) -> bool {
    forall|i: int, j: int|
        0 <= i < txs.len() && 0 <= j < txs.len() && (#[trigger] txs[i]).tx_type.is_monetary() && (
        #[trigger] txs[j]).tx_type.is_monetary() && txs[i].tx_id == txs[j].tx_id
            ==> crate::sources::channel_of(txs[i].client_id, parallelism)
            == crate::sources::channel_of(txs[j].client_id, parallelism)
}

/// The position of the last transaction that `p` picks, and what taking it out does.
proof fn lemma_last_picked(txs: Seq<TxView>, p: spec_fn(TxView) -> bool) -> (k: int)
    requires
        txs.filter(p).len() > 0,
    ensures
        0 <= k < txs.len(),
        p(txs[k]),
        txs[k] == txs.filter(p).last(),
        forall|i: int| k < i < txs.len() ==> !p(#[trigger] txs[i]),
        txs.remove(k).filter(p) == txs.filter(p).drop_last(),
        forall|q: spec_fn(TxView) -> bool|
            !q(txs[k]) ==> #[trigger] txs.remove(k).filter(q) == txs.filter(q),
    decreases txs.len(),
{
    reveal(Seq::filter);
    let rest = txs.drop_last();
    if p(txs.last()) {
        let k = txs.len() - 1;
        assert(txs.remove(k) =~= rest);
        assert(txs.filter(p).drop_last() =~= rest.filter(p));
        k
    } else {
        let k = lemma_last_picked(rest, p);
        assert forall|i: int| k < i < txs.len() implies !p(#[trigger] txs[i]) by {
            if i < rest.len() {
                assert(!p(rest[i]));
            }
        }
        assert(txs.remove(k).drop_last() =~= rest.remove(k));
        assert(txs.remove(k).last() == txs.last());
        assert forall|q: spec_fn(TxView) -> bool| !q(txs[k]) implies #[trigger] txs.remove(
            k,
        ).filter(q) == txs.filter(q) by {
            assert(rest.remove(k).filter(q) == rest.filter(q));
        }
        k
    }
}

/// A transaction can be put off to the end past others that are independent of it.
proof fn lemma_put_off(l: Ledger, txs: Seq<TxView>, k: int)
    requires
        l.keyed(),
        l.filed(),
        0 <= k < txs.len(),
        forall|i: int| k < i < txs.len() ==> independent(txs[k], #[trigger] txs[i]),
    ensures
        l.after_all(txs) == l.after_all(txs.remove(k)).after(txs[k]),
    decreases txs.len(),
{
    let rest = txs.drop_last();
    if k == txs.len() - 1 {
        assert(txs.remove(k) =~= rest);
    } else {
        lemma_put_off(l, rest, k);
        assert(txs.remove(k).drop_last() =~= rest.remove(k));
        assert(txs.remove(k).last() == txs.last());
        crate::laws::ledgers::lemma_keyed_history(l, rest.remove(k));
        law_independent_transactions_commute(
            l.after_all(rest.remove(k)),
            txs[k],
            txs.last(),
        );
    }
}

/// However the workers interleave, the ledger comes out the same: two orders in which the same
/// transactions pass through each channel in the same order lead to the same ledger, provided that
/// deposits and withdrawals on different channels have different ids.
pub proof fn law_interleaving_makes_no_difference(
    l: Ledger,
    one: Seq<TxView>,
    other: Seq<TxView>,
    parallelism: usize,
)
    requires
        l.keyed(),
        l.filed(),
        forall|channel: usize| #[trigger]
            queue(one, parallelism, channel) == queue(other, parallelism, channel),
        ids_keep_to_channels(other, parallelism),
    ensures
        l.after_all(one) == l.after_all(other),
    decreases one.len(),
{
    reveal(Seq::filter);
    if one.len() == 0 {
        if other.len() > 0 {
            let c = crate::sources::channel_of(other.last().client_id, parallelism);
            assert(queue(one, parallelism, c) == queue(other, parallelism, c));
            assert(on_channel(parallelism, c)(other.last()));
        }
    } else {
        let tx = one.last();
        let c = crate::sources::channel_of(tx.client_id, parallelism);
        let p = on_channel(parallelism, c);
        assert(p(tx));
        assert(queue(one, parallelism, c) == queue(other, parallelism, c));
        assert(queue(one, parallelism, c) =~= one.drop_last().filter(p).push(tx));
        let k = lemma_last_picked(other, p);
        assert(other[k] == tx);
        assert forall|i: int| k < i < other.len() implies independent(
            other[k],
            #[trigger] other[i],
        ) by {
            assert(!p(other[i]));
        }
        lemma_put_off(l, other, k);
        let less = other.remove(k);
        assert forall|channel: usize| #[trigger]
            queue(one.drop_last(), parallelism, channel) == queue(less, parallelism, channel) by {
            assert(queue(one, parallelism, channel) == queue(other, parallelism, channel));
            let q = on_channel(parallelism, channel);
            if channel == c {
                assert(queue(one, parallelism, c).drop_last() =~= one.drop_last().filter(p));
            } else {
                assert(!q(tx));
                assert(less.filter(q) == other.filter(q));
            }
        }
        assert forall|i: int, j: int|
            0 <= i < less.len() && 0 <= j < less.len() && (
            #[trigger] less[i]).tx_type.is_monetary() && (#[trigger] less[j]).tx_type.is_monetary()
                && less[i].tx_id == less[j].tx_id implies crate::sources::channel_of(
            less[i].client_id,
            parallelism,
        ) == crate::sources::channel_of(less[j].client_id, parallelism) by {
            let i2 = if i < k {
                i
            } else {
                i + 1
            };
            let j2 = if j < k {
                j
            } else {
                j + 1
            };
            assert(less[i] == other[i2]);
            assert(less[j] == other[j2]);
        }
        law_interleaving_makes_no_difference(l, one.drop_last(), less, parallelism);
    }
}

} // verus!
