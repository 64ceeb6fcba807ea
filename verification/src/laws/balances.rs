//! Laws of the balances: how available, held and total hang together, and what they add up to.

use crate::amount::Dec;
use crate::domain::{AccountView, TxType, TxView};
use crate::ledger::{Ledger, Ruling};
use vstd::prelude::*;

verus! {

impl Dec {
    /// How far rounding takes the sum with `b` from the true sum.
    pub open spec fn sum_error(self, b: Dec) -> int {
        self.plus(b)->0.units() - (self.units() + b.units())
    }

    /// How far rounding takes the difference with `b` from the true difference.
    pub open spec fn difference_error(self, b: Dec) -> int {
        self.minus(b)->0.units() - (self.units() - b.units())
    }
}

impl AccountView {
    /// By how much available and held together exceed the total.
    pub open spec fn imbalance(self) -> int {
        self.available.units() + self.held.units() - self.total.units()
    }

    /// Whether the total is what is available and what is held together.
    pub open spec fn balanced(self) -> bool {
        self.total.units() == self.available.units() + self.held.units()
    }
}

/// The amount that a transaction moves: its own, or that of the transaction it refers to.
pub open spec fn moved(tx: TxView, target: Option<TxView>) -> Dec {
    if tx.tx_type.is_monetary() {
        tx.amount
    } else {
        target->0.amount
    }
}

/// What the roundings of a transaction add to the imbalance of its account.
pub open spec fn drift(tx: TxView, account: AccountView, target: Option<TxView>) -> int {
    let x = moved(tx, target);
    match tx.tx_type {
        TxType::Deposit => account.available.sum_error(x) - account.total.sum_error(x),
        TxType::Withdrawal => account.available.difference_error(x)
            - account.total.difference_error(x),
        TxType::Dispute => account.available.difference_error(x) + account.held.sum_error(x),
        TxType::Resolve => account.available.sum_error(x) + account.held.difference_error(x),
        TxType::Chargeback => account.held.difference_error(x) - account.total.difference_error(x),
    }
}

/// Whether no balance is rounded when the transaction is applied.
pub open spec fn exact(tx: TxView, account: AccountView, target: Option<TxView>) -> bool {
    let x = moved(tx, target);
    match tx.tx_type {
        TxType::Deposit => account.available.adds_exactly(x) && account.total.adds_exactly(x),
        TxType::Withdrawal => account.available.subtracts_exactly(x)
            && account.total.subtracts_exactly(x),
        TxType::Dispute => account.available.subtracts_exactly(x) && account.held.adds_exactly(x),
        TxType::Resolve => account.available.adds_exactly(x) && account.held.subtracts_exactly(x),
        TxType::Chargeback => account.held.subtracts_exactly(x) && account.total.subtracts_exactly(
            x,
        ),
    }
}

impl Ledger {
    /// Whether `tx`, if it is applied to this ledger, is applied without rounding.
    pub open spec fn applies_exactly(self, tx: TxView) -> bool {
        self.ruling(tx) is Store ==> exact(tx, self.account(tx.client_id), self.target(tx))
    }

    /// Whether each transaction of a series, when its turn comes, is applied without rounding.
    pub open spec fn all_apply_exactly(self, txs: Seq<TxView>) -> bool {
        forall|i: int|
            0 <= i < txs.len() ==> #[trigger] self.after_all(txs.take(i)).applies_exactly(txs[i])
    }

    /// Whether in every account the total is what is available and what is held together.
    pub open spec fn all_balanced(self) -> bool {
        forall|c: u16| (#[trigger] self.account(c)).balanced()
    }
}

/// A deposit adds its amount to available and total, a withdrawal takes it from both, a dispute
/// moves it from available to held, a resolve moves it back, and a chargeback takes it from held
/// and total: exactly, where no balance is rounded.
pub proof fn law_balances_move_by_the_amount(l: Ledger, tx: TxView)
    requires
        l.keyed(),
        l.ruling(tx) is Store,
        l.applies_exactly(tx),
    ensures
        ({
            let before = l.account(tx.client_id);
            let after = l.after(tx).account(tx.client_id);
            let x = moved(tx, l.target(tx)).units();
            let (available, held, total) = match tx.tx_type {
                TxType::Deposit => (x, 0int, x),
                TxType::Withdrawal => (-x, 0int, -x),
                TxType::Dispute => (-x, x, 0int),
                TxType::Resolve => (x, -x, 0int),
                TxType::Chargeback => (0int, -x, -x),
            };
            &&& after.available.units() == before.available.units() + available
            &&& after.held.units() == before.held.units() + held
            &&& after.total.units() == before.total.units() + total
        }),
{
}

/// The imbalance of an account changes by the roundings of the transaction, and by nothing else.
pub proof fn law_imbalance_comes_from_rounding(l: Ledger, tx: TxView)
    requires
        l.keyed(),
        l.ruling(tx) is Store,
    ensures
        l.after(tx).account(tx.client_id).imbalance() == l.account(tx.client_id).imbalance()
            + drift(tx, l.account(tx.client_id), l.target(tx)),
{
}

/// The total of every account stays what is available and what is held together, if and only if
/// the roundings of the transaction cancel out.
pub proof fn law_total_is_available_plus_held(l: Ledger, tx: TxView)
    requires
        l.keyed(),
        l.all_balanced(),
    ensures
        l.after(tx).all_balanced() <==> (l.ruling(tx) is Store ==> drift(
            tx,
            l.account(tx.client_id),
            l.target(tx),
        ) == 0),
        l.applies_exactly(tx) ==> l.after(tx).all_balanced(),
{
    assert(l.account(tx.client_id).balanced());
    if l.ruling(tx) is Store {
        law_imbalance_comes_from_rounding(l, tx);
        assert forall|c: u16| c != tx.client_id implies (#[trigger] l.after(
            tx,
        ).account(c)).balanced() by {
            assert(l.account(c).balanced());
        }
        let a = l.after(tx).account(tx.client_id);
        if drift(tx, l.account(tx.client_id), l.target(tx)) == 0 {
            assert(l.after(tx).all_balanced());
        } else {
            assert(!a.balanced());
        }
    } else {
        assert forall|c: u16| (#[trigger] l.after(tx).account(c)).balanced() by {
            assert(l.account(c).balanced());
        }
    }
}

/// The sum of `f` over the transactions in `m`.
pub open spec fn sum_over(m: Map<u32, TxView>, f: spec_fn(TxView) -> int) -> int
    decreases m.dom().len(),
{
    if m.dom().finite() && m.dom().len() > 0 {
        let id = m.dom().choose();
        f(m[id]) + sum_over(m.remove(id), f)
    } else {
        0
    }
}

/// Any transaction may be counted first.
proof fn lemma_sum_remove(m: Map<u32, TxView>, f: spec_fn(TxView) -> int, id: u32)
    requires
        m.dom().finite(),
        m.contains_key(id),
    ensures
        sum_over(m, f) == f(m[id]) + sum_over(m.remove(id), f),
    decreases m.dom().len(),
{
    let k = m.dom().choose();
    assert(m.dom().len() > 0) by {
        if m.dom().len() == 0 {
            assert(m.dom() =~= Set::empty());
        }
    }
    assert(m.dom().contains(k));
    if k != id {
        assert(m.remove(k).dom() =~= m.dom().remove(k));
        assert(m.remove(id).dom() =~= m.dom().remove(id));
        lemma_sum_remove(m.remove(k), f, id);
        lemma_sum_remove(m.remove(id), f, k);
        assert(m.remove(k).remove(id) =~= m.remove(id).remove(k));
    }
}

/// A new transaction adds its share to the sum.
proof fn lemma_sum_insert(m: Map<u32, TxView>, f: spec_fn(TxView) -> int, id: u32, t: TxView)
    requires
        m.dom().finite(),
        !m.contains_key(id),
    ensures
        sum_over(m.insert(id, t), f) == f(t) + sum_over(m, f),
{
    lemma_sum_remove(m.insert(id, t), f, id);
    assert(m.insert(id, t).remove(id) =~= m);
}

/// A sum of shares that are not negative is not negative.
proof fn lemma_sum_not_negative(m: Map<u32, TxView>, f: spec_fn(TxView) -> int)
    requires
        forall|id: u32| #[trigger] m.contains_key(id) ==> f(m[id]) >= 0,
    ensures
        sum_over(m, f) >= 0,
    decreases m.dom().len(),
{
    if m.dom().finite() && m.dom().len() > 0 {
        let id = m.dom().choose();
        assert(m.contains_key(id));
        assert(m.remove(id).dom() =~= m.dom().remove(id));
        assert forall|k: u32| #[trigger] m.remove(id).contains_key(k) implies f(m.remove(id)[k])
            >= 0 by {
            assert(m.contains_key(k));
        }
        lemma_sum_not_negative(m.remove(id), f);
    }
}

/// What a transaction counts for in the held funds of a client, while it is disputed.
pub open spec fn held_share(client_id: u16) -> spec_fn(TxView) -> int {
    |t: TxView|
        if t.client_id == client_id {
            t.amount.units()
        } else {
            0
        }
}

/// What a transaction counts for in the total of a client, while it is on record.
pub open spec fn total_share(client_id: u16) -> spec_fn(TxView) -> int {
    |t: TxView|
        if t.client_id == client_id && t.tx_type is Deposit {
            t.amount.units()
        } else if t.client_id == client_id && t.tx_type is Withdrawal {
            -t.amount.units()
        } else {
            0
        }
}

impl Ledger {
    /// By how much the held funds of a client exceed the sum of the client's disputed amounts.
    pub open spec fn held_gap(self, client_id: u16) -> int {
        self.account(client_id).held.units() - sum_over(self.disputed, held_share(client_id))
    }

    /// By how much the total of a client exceeds the sum of the client's deposits less the sum of
    /// the client's withdrawals on record, disputed ones included.
    pub open spec fn total_gap(self, client_id: u16) -> int {
        self.account(client_id).total.units() - sum_over(
            self.transactions,
            total_share(client_id),
        ) - sum_over(self.disputed, total_share(client_id))
    }

    /// Whether the balances of a client are what the transactions on record add up to: held is
    /// the sum of the disputed amounts, total is the sum of the deposits less the withdrawals, and
    /// available is the rest.
    pub open spec fn books_agree(self, client_id: u16) -> bool {
        &&& self.held_gap(client_id) == 0
        &&& self.total_gap(client_id) == 0
        &&& self.account(client_id).balanced()
    }
}

/// What a transaction that is applied rounds in the held funds.
pub open spec fn held_error(tx: TxView, account: AccountView, target: Option<TxView>) -> int {
    let x = moved(tx, target);
    match tx.tx_type {
        TxType::Deposit | TxType::Withdrawal => 0,
        TxType::Dispute => account.held.sum_error(x),
        TxType::Resolve | TxType::Chargeback => account.held.difference_error(x),
    }
}

/// What a transaction that is applied rounds in the total.
pub open spec fn total_error(tx: TxView, account: AccountView, target: Option<TxView>) -> int {
    let x = moved(tx, target);
    match tx.tx_type {
        TxType::Deposit => account.total.sum_error(x),
        TxType::Dispute | TxType::Resolve => 0,
        TxType::Withdrawal | TxType::Chargeback => account.total.difference_error(x),
    }
}

/// The held funds and the total of a client part from what the transactions on record add up to by
/// what is rounded in them, and by nothing else.
pub proof fn law_gaps_come_from_rounding(l: Ledger, tx: TxView, client_id: u16)
    requires
        l.consistent(),
        tx.amount.wf(),
    ensures
        ({
            let rounds = l.ruling(tx) is Store && client_id == tx.client_id;
            let account = l.account(client_id);
            let target = l.target(tx);
            &&& l.after(tx).held_gap(client_id) == l.held_gap(client_id) + if rounds {
                held_error(tx, account, target)
            } else {
                0
            }
            &&& l.after(tx).total_gap(client_id) == l.total_gap(client_id) + if rounds {
                total_error(tx, account, target)
            } else {
                0
            }
        }),
{
    let id = tx.tx_id;
    let hs = held_share(client_id);
    let ts = total_share(client_id);
    if let Ruling::Store(_) = l.ruling(tx) {
        match tx.tx_type {
            TxType::Deposit | TxType::Withdrawal => {
                assert(!l.transactions.contains_key(id));
                lemma_sum_insert(l.transactions, ts, id, tx);
            },
            TxType::Dispute => {
                let t = l.transactions[id];
                lemma_sum_remove(l.transactions, ts, id);
                lemma_sum_insert(l.disputed, ts, id, t);
                lemma_sum_insert(l.disputed, hs, id, t);
            },
            TxType::Resolve => {
                let t = l.disputed[id];
                assert(!l.transactions.contains_key(id));
                lemma_sum_insert(l.transactions, ts, id, t);
                lemma_sum_remove(l.disputed, ts, id);
                lemma_sum_remove(l.disputed, hs, id);
            },
            TxType::Chargeback => {
                lemma_sum_remove(l.disputed, ts, id);
                lemma_sum_remove(l.disputed, hs, id);
            },
        }
    }
}

/// The balances of every client stay what the transactions on record add up to, as long as no
/// balance is rounded.
pub proof fn law_books_stay_in_agreement(l: Ledger, tx: TxView, client_id: u16)
    requires
        l.consistent(),
        tx.amount.wf(),
        l.books_agree(client_id),
        l.applies_exactly(tx),
    ensures
        l.after(tx).books_agree(client_id),
{
    law_gaps_come_from_rounding(l, tx, client_id);
    if l.ruling(tx) is Store {
        law_imbalance_comes_from_rounding(l, tx);
    }
}

/// After any series of transactions in which no balance is rounded, the balances of every client
/// are what the transactions on record add up to.
pub proof fn law_books_agree_after_every_history(txs: Seq<TxView>, client_id: u16)
    requires
        forall|i: int| 0 <= i < txs.len() ==> (#[trigger] txs[i]).amount.wf(),
        Ledger::empty().all_apply_exactly(txs),
    ensures
        Ledger::empty().after_all(txs).books_agree(client_id),
    decreases txs.len(),
{
    if txs.len() > 0 {
        let earlier = txs.drop_last();
        let last = txs.len() - 1;
        assert(earlier =~= txs.take(last));
        assert(Ledger::empty().after_all(txs.take(last)).applies_exactly(txs[last]));
        assert forall|i: int| 0 <= i < earlier.len() implies #[trigger] Ledger::empty().after_all(
            earlier.take(i),
        ).applies_exactly(earlier[i]) by {
            assert(earlier.take(i) =~= txs.take(i));
            assert(Ledger::empty().after_all(txs.take(i)).applies_exactly(txs[i]));
        }
        law_books_agree_after_every_history(earlier, client_id);
        crate::laws::ledgers::law_every_history_is_consistent(earlier);
        law_books_stay_in_agreement(Ledger::empty().after_all(earlier), txs.last(), client_id);
    } else {
        let l = Ledger::empty();
        assert(l.disputed.dom() =~= Set::empty());
        assert(l.transactions.dom() =~= Set::empty());
    }
}

/// Held funds are never negative where they are what the disputed transactions add up to.
pub proof fn law_held_is_not_negative(l: Ledger, client_id: u16)
    requires
        l.consistent(),
        l.books_agree(client_id),
    ensures
        l.account(client_id).held.units() >= 0,
{
    lemma_sum_not_negative(l.disputed, held_share(client_id));
}

/// A dispute and the resolve that follows leave the record as it was, and the balances too but
/// for rounding: available and held are off by what the two steps round.
pub proof fn law_resolve_follows_dispute(l: Ledger, dispute: TxView, resolve: TxView)
    requires
        l.consistent(),
        dispute.tx_type is Dispute,
        l.ruling(dispute) is Store,
        resolve.tx_type is Resolve,
        resolve.tx_id == dispute.tx_id,
        resolve.client_id == dispute.client_id,
        l.after(dispute).ruling(resolve) is Store,
    ensures
        ({
            let before = l.account(dispute.client_id);
            let between = l.after(dispute).account(dispute.client_id);
            let end = l.after(dispute).after(resolve);
            let after = end.account(dispute.client_id);
            let x = l.transactions[dispute.tx_id].amount;
            &&& end.transactions == l.transactions
            &&& end.disputed == l.disputed
            &&& end.processed == l.processed
            &&& after.available.units() == before.available.units()
                + before.available.difference_error(x) + between.available.sum_error(x)
            &&& after.held.units() == before.held.units() + before.held.sum_error(x)
                + between.held.difference_error(x)
            &&& after.total == before.total
            &&& after.locked == before.locked
        }),
{
    let m = l.after(dispute);
    let t = l.transactions[dispute.tx_id];
    assert(m.disputed[dispute.tx_id] == t);
    let end = m.after(resolve);
    assert(end.transactions =~= l.transactions);
    assert(end.disputed =~= l.disputed);
    assert(end.processed =~= l.processed);
}

/// A resolve undoes a dispute that rounded nothing: it is applied, and every balance is back at
/// its value.
pub proof fn law_resolve_undoes_dispute(l: Ledger, dispute: TxView, resolve: TxView)
    requires
        l.consistent(),
        dispute.tx_type is Dispute,
        dispute.amount.wf(),
        l.ruling(dispute) is Store,
        l.applies_exactly(dispute),
        resolve.tx_type is Resolve,
        resolve.tx_id == dispute.tx_id,
        resolve.client_id == dispute.client_id,
    ensures
        l.after(dispute).ruling(resolve) is Store,
        ({
            let before = l.account(dispute.client_id);
            let after = l.after(dispute).after(resolve).account(dispute.client_id);
            &&& after.available.units() == before.available.units()
            &&& after.held.units() == before.held.units()
            &&& after.total == before.total
            &&& after.locked == before.locked
        }),
{
    let m = l.after(dispute);
    let before = l.account(dispute.client_id);
    let between = m.account(dispute.client_id);
    let x = l.transactions[dispute.tx_id].amount;
    assert(m.disputed[dispute.tx_id] == l.transactions[dispute.tx_id]);
    crate::laws::ledgers::law_consistency_is_kept(l, dispute);
    law_balances_move_by_the_amount(l, dispute);
    assert(m.accounts.contains_key(dispute.client_id));
    crate::laws::amounts::law_arithmetic_is_exact_where_an_amount_can_hold_it(
        between.available,
        x,
        before.available,
    );
    crate::laws::amounts::law_arithmetic_is_exact_where_an_amount_can_hold_it(
        between.held,
        x,
        before.held,
    );
    law_resolve_follows_dispute(l, dispute, resolve);
}

} // verus!
