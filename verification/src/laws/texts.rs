//! Laws of the report: what its lines say when they are read back, and that what is behind them is
//! seen whole.

use crate::amount::{Amount, Dec};
use crate::domain::{Account, AccountView, Transaction};
use vstd::prelude::*;

verus! {

/// Whether a character is a decimal digit.
pub open spec fn is_digit(c: char) -> bool {
    '0' as int <= c as int <= '9' as int
}

/// Whether a text has nothing but digits, and at least one.
pub open spec fn is_number(s: Seq<char>) -> bool {
    &&& s.len() >= 1
    &&& forall|i: int| 0 <= i < s.len() ==> is_digit(#[trigger] s[i])
}

/// The number that digits stand for.
pub open spec fn digits_value(s: Seq<char>) -> int
    decreases s.len(),
{
    if s.len() == 0 {
        0
    } else {
        10 * digits_value(s.drop_last()) + (s.last() as int - '0' as int)
    }
}

/// The position of the first point in a text, or its length where there is none.
pub open spec fn point(s: Seq<char>) -> nat
    decreases s.len(),
{
    if s.len() == 0 || s[0] == '.' {
        0
    } else {
        1 + point(s.skip(1))
    }
}

/// The digits behind the point of a text.
pub open spec fn places(s: Seq<char>) -> Seq<char> {
    if point(s) < s.len() {
        s.skip((point(s) + 1) as int)
    } else {
        Seq::empty()
    }
}

/// The value that a number in decimal notation has, in units of `10^-28`.
pub open spec fn reading(s: Seq<char>) -> int {
    if s.len() > 0 && s[0] == '-' {
        -reading_unsigned(s.skip(1))
    } else {
        reading_unsigned(s)
    }
}

/// The value that a number in decimal notation without a sign has, in units of `10^-28`.
pub open spec fn reading_unsigned(s: Seq<char>) -> int {
    digits_value(s.take(point(s) as int) + places(s)) * crate::amount::pow10(
        (28 - places(s).len()) as nat,
    )
}

/// Whether a text is a number in decimal notation: digits, perhaps a sign before them, and perhaps a
/// point and more digits behind them. No zero leads the whole part but a single one.
pub open spec fn is_decimal(s: Seq<char>) -> bool {
    let t = if s.len() > 0 && s[0] == '-' {
        s.skip(1)
    } else {
        s
    };
    let whole = t.take(point(t) as int);
    &&& is_number(whole)
    &&& whole[0] == '0' ==> whole.len() == 1
    &&& point(t) < t.len() ==> is_number(places(t))
}

/// The fields of a line, which are parted by commas.
pub open spec fn fields(line: Seq<char>) -> Seq<Seq<char>>
    decreases line.len(),
{
    if line.len() == 0 {
        seq![Seq::empty()]
    } else {
        let before = fields(line.drop_last());
        if line.last() == ',' {
            before.push(Seq::empty())
        } else {
            before.drop_last().push(before.last().push(line.last()))
        }
    }
}

/// Whether there is no comma in a text.
pub open spec fn is_field(s: Seq<char>) -> bool {
    forall|i: int| 0 <= i < s.len() ==> #[trigger] s[i] != ','
}

/// Digits stand for themselves.
proof fn lemma_digit(d: int)
    requires
        0 <= d < 10,
    ensures
        is_digit(crate::amount::digit(d)),
        crate::amount::digit(d) as int - '0' as int == d,
{
    let s = seq!['0', '1', '2', '3', '4', '5', '6', '7', '8', '9'];
    assert(s[0] == '0' && s[1] == '1' && s[2] == '2' && s[3] == '3' && s[4] == '4' && s[5] == '5'
        && s[6] == '6' && s[7] == '7' && s[8] == '8' && s[9] == '9');
}

/// A whole number reads back, and no zero leads it.
proof fn lemma_decimal_text(n: nat)
    ensures
        is_number(crate::amount::decimal_text(n)),
        digits_value(crate::amount::decimal_text(n)) == n,
        crate::amount::decimal_text(n)[0] == '0' ==> crate::amount::decimal_text(n).len() == 1 && n
            == 0,
    decreases n,
{
    let s = crate::amount::decimal_text(n);
    if n < 10 {
        lemma_digit(n as int);
        assert(s.drop_last() =~= Seq::empty());
        assert(digits_value(s.drop_last()) == 0);
    } else {
        let before = crate::amount::decimal_text(n / 10);
        lemma_decimal_text(n / 10);
        lemma_digit((n % 10) as int);
        assert(s == before.push(crate::amount::digit((n % 10) as int)));
        assert(s.drop_last() =~= before);
        assert(s[0] == before[0]);
        assert forall|i: int| 0 <= i < s.len() implies is_digit(#[trigger] s[i]) by {
            if i < before.len() {
                assert(s[i] == before[i]);
            }
        }
    }
}

/// Digits behind others: the value of both together.
proof fn lemma_padded_text(before: Seq<char>, n: nat, width: nat)
    ensures
        crate::amount::padded_text(n, width).len() == width,
        forall|i: int|
            0 <= i < width ==> is_digit(#[trigger] crate::amount::padded_text(n, width)[i]),
        digits_value(before + crate::amount::padded_text(n, width)) == digits_value(before)
            * crate::amount::pow10(width) + (n as int) % crate::amount::pow10(width),
    decreases width,
{
    let s = crate::amount::padded_text(n, width);
    let v = digits_value(before);
    if width == 0 {
        assert(before + s =~= before);
        assert(crate::amount::pow10(0) == 1);
        assert(v * 1 == v);
        assert((n as int) % 1 == 0);
    } else {
        let w = (width - 1) as nat;
        let p = crate::amount::pow10(w);
        let shorter = crate::amount::padded_text(n / 10, w);
        crate::laws::amounts::lemma_pow10_positive(w);
        lemma_padded_text(before, n / 10, w);
        lemma_digit((n % 10) as int);
        assert((before + s).drop_last() =~= before + shorter);
        assert forall|i: int| 0 <= i < width implies is_digit(#[trigger] s[i]) by {
            if i < w {
                assert(s[i] == shorter[i]);
            }
        }
        vstd::arithmetic::div_mod::lemma_mod_breakdown(n as int, 10, p);
        assert(10 * (v * p) == v * (10 * p)) by (nonlinear_arith);
    }
}

/// There is no point among digits.
proof fn lemma_point(whole: Seq<char>, rest: Seq<char>)
    requires
        forall|i: int| 0 <= i < whole.len() ==> is_digit(#[trigger] whole[i]),
        rest.len() > 0 ==> rest[0] == '.',
    ensures
        point(whole + rest) == whole.len(),
    decreases whole.len(),
{
    let s = whole + rest;
    if whole.len() == 0 {
        assert(s =~= rest);
    } else {
        assert(s[0] == whole[0] && is_digit(whole[0]));
        assert(s.skip(1) =~= whole.skip(1) + rest);
        assert forall|i: int| 0 <= i < whole.skip(1).len() implies is_digit(
            #[trigger] whole.skip(1)[i],
        ) by {
            assert(whole.skip(1)[i] == whole[i + 1]);
        }
        lemma_point(whole.skip(1), rest);
    }
}

/// The text of an amount is a number in decimal notation that reads back as the amount, with a minus
/// sign exactly where it is negative, and with as many decimal places as it is written with.
pub proof fn law_texts_read_back(a: Dec)
    requires
        a.wf(),
    ensures
        is_decimal(a.text()),
        reading(a.text()) == a.units(),
        a.text()[0] == '-' <==> a.units() < 0,
        is_field(a.text()),
        a.text().contains('.') <==> a.scale > 0,
        a.scale > 0 ==> (a.text().last() == '0' <==> a.mantissa % 10 == 0),
        a.scale > 0 ==> a.text().len() > a.scale + 1 && a.text()[a.text().len() - a.scale - 1]
            == '.',
{
    let text = a.text();
    let scale = a.scale;
    let m = (if a.mantissa < 0 {
        -a.mantissa
    } else {
        a.mantissa
    }) as nat;
    let p = crate::amount::pow10(scale);
    crate::laws::amounts::lemma_pow10_positive(scale);
    let whole = crate::amount::decimal_text(m / (p as nat));
    let padded = crate::amount::padded_text(m, scale);
    let behind = if scale == 0 {
        seq![]
    } else {
        seq!['.'] + padded
    };
    let t = whole + behind;
    let negative = a.mantissa < 0;
    lemma_decimal_text(m / (p as nat));
    lemma_padded_text(whole, m, scale);
    lemma_point(whole, behind);
    assert(t.take(point(t) as int) =~= whole);
    assert(places(t) =~= padded) by {
        if scale == 0 {
            assert(padded =~= Seq::empty());
        }
    }
    // The digits together are the mantissa.
    let mi = m as int;
    vstd::arithmetic::div_mod::lemma_fundamental_div_mod(mi, p);
    vstd::arithmetic::mul::lemma_mul_is_commutative(mi / p, p);
    assert(digits_value(whole + padded) == mi);
    let step = crate::amount::pow10((28 - scale) as nat);
    assert(reading_unsigned(t) == mi * step);
    if negative {
        assert(text =~= seq!['-'] + t);
        assert(text.skip(1) =~= t);
        assert(-(mi * step) == (-mi) * step) by (nonlinear_arith);
    } else {
        assert(text =~= t);
        assert(text[0] == whole[0] && is_digit(whole[0]));
    }
    crate::laws::amounts::lemma_pow10_positive((28 - scale) as nat);
    assert(mi * step >= 0) by (nonlinear_arith)
        requires
            mi >= 0,
            step >= 1,
    ;
    assert(mi > 0 ==> mi * step > 0) by (nonlinear_arith)
        requires
            step >= 1,
    ;
    let sign = if negative {
        1int
    } else {
        0int
    };
    assert forall|i: int| 0 <= i < text.len() implies #[trigger] text[i] != ',' && (text[i] == '.'
        ==> scale > 0) by {
        if i >= sign && i - sign < whole.len() {
            assert(text[i] == whole[i - sign]);
        } else if i - sign > whole.len() {
            assert(text[i] == padded[i - sign - whole.len() - 1]);
        }
    }
    if scale > 0 {
        assert(text[sign + whole.len()] == '.');
        assert(text.last() == padded.last());
        lemma_digit((m % 10) as int);
        assert(padded.last() == crate::amount::digit((m % 10) as int));
        assert(is_number(padded));
    }
}

/// Whether a text shows a balance: it is the multiple of 0.0001 that is nearest to the balance, the
/// even one of two that are equally near, without zeros at the end, and with a minus sign exactly
/// where it is negative.
pub open spec fn shows(s: Seq<char>, balance: Dec) -> bool {
    let step = crate::amount::pow10(24);
    let error = reading(s) - balance.units();
    &&& is_decimal(s)
    &&& is_field(s)
    &&& -step <= 2 * error <= step
    &&& reading(s) % step == 0
    &&& 2 * error == step || 2 * error == -step ==> (reading(s) / step) % 2 == 0
    &&& s.contains('.') ==> s.last() != '0'
    &&& s[0] == '-' <==> reading(s) < 0
}

/// The report shows every balance: rounded to four decimal places, and otherwise as it is.
pub proof fn law_balances_are_shown(balance: Dec)
    requires
        balance.wf(),
    ensures
        shows(crate::report::balance_text(balance), balance),
{
    let rounded = balance.rounded(4);
    let shown = rounded.stripped();
    let step = crate::amount::pow10(24);
    crate::laws::amounts::law_rounding_to_places(balance, 4);
    crate::laws::amounts::law_stripping_keeps_the_value(rounded);
    law_texts_read_back(shown);
    crate::laws::amounts::lemma_units_multiple(rounded, 4);
    crate::laws::amounts::lemma_pow10_positive(24);
    let k = rounded.mantissa * crate::amount::pow10((4 - rounded.scale) as nat);
    assert(rounded.units() == k * step);
    vstd::arithmetic::div_mod::lemma_mod_multiples_basic(k, step);
    vstd::arithmetic::div_mod::lemma_div_multiples_vanish(k, step);
    vstd::arithmetic::mul::lemma_mul_is_commutative(k, step);
    if balance.scale > 4 {
        crate::laws::amounts::law_ties_go_to_the_even_neighbour(balance, 4);
        assert(crate::amount::pow10(0) == 1);
        assert(k == rounded.mantissa);
    }
}

/// A text without commas is a field by itself.
proof fn lemma_one_field(s: Seq<char>)
    requires
        is_field(s),
    ensures
        fields(s) == seq![s],
    decreases s.len(),
{
    if s.len() > 0 {
        let rest = s.drop_last();
        assert forall|i: int| 0 <= i < rest.len() implies #[trigger] rest[i] != ',' by {
            assert(rest[i] == s[i]);
        }
        lemma_one_field(rest);
        assert(s[s.len() - 1] != ',');
        assert(rest.push(s.last()) =~= s);
        assert(fields(s) =~= seq![s]);
    } else {
        assert(s =~= Seq::empty());
    }
}

/// A comma and a text without commas add a field.
proof fn lemma_next_field(before: Seq<char>, s: Seq<char>)
    requires
        is_field(s),
    ensures
        fields(before + ","@ + s) == fields(before).push(s),
    decreases s.len(),
{
    reveal_strlit(",");
    let line = before + ","@ + s;
    if s.len() == 0 {
        assert(line.drop_last() =~= before);
        assert(line.last() == ',');
        assert(s =~= Seq::empty());
    } else {
        let rest = s.drop_last();
        assert forall|i: int| 0 <= i < rest.len() implies #[trigger] rest[i] != ',' by {
            assert(rest[i] == s[i]);
        }
        lemma_next_field(before, rest);
        assert(line.drop_last() =~= before + ","@ + rest);
        assert(line.last() == s[s.len() - 1]);
        assert(fields(before).push(rest).drop_last() =~= fields(before));
        assert(rest.push(s.last()) =~= s);
    }
}

/// The line of an account has five fields: the client, what is available, what is held, the total,
/// and whether the account is locked.
pub proof fn law_lines_show_accounts(account: AccountView)
    requires
        account.wf(),
    ensures
        ({
            let f = fields(crate::report::account_line(account));
            &&& f.len() == 5
            &&& is_number(f[0])
            &&& f[0][0] == '0' ==> f[0].len() == 1
            &&& digits_value(f[0]) == account.client_id
            &&& shows(f[1], account.available)
            &&& shows(f[2], account.held)
            &&& shows(f[3], account.total)
            &&& account.locked ==> f[4] == "true"@
            &&& !account.locked ==> f[4] == "false"@
        }),
{
    let client = crate::amount::decimal_text(account.client_id as nat);
    let available = crate::report::balance_text(account.available);
    let held = crate::report::balance_text(account.held);
    let total = crate::report::balance_text(account.total);
    let locked = crate::report::flag_text(account.locked);
    lemma_decimal_text(account.client_id as nat);
    law_balances_are_shown(account.available);
    law_balances_are_shown(account.held);
    law_balances_are_shown(account.total);
    reveal_strlit("true");
    reveal_strlit("false");
    assert(is_field(client)) by {
        assert forall|i: int| 0 <= i < client.len() implies #[trigger] client[i] != ',' by {
            assert(is_digit(client[i]));
        }
    }
    lemma_one_field(client);
    lemma_next_field(client, available);
    lemma_next_field(client + ","@ + available, held);
    lemma_next_field(client + ","@ + available + ","@ + held, total);
    lemma_next_field(client + ","@ + available + ","@ + held + ","@ + total, locked);
}

/// The first line of the report names the five fields of the others.
pub proof fn law_header_names_the_fields()
    ensures
        fields(crate::report::header_text()) == seq![
            "client"@,
            "available"@,
            "held"@,
            "total"@,
            "locked"@,
        ],
{
    reveal_strlit("client,available,held,total,locked");
    reveal_strlit(",");
    reveal_strlit("client");
    reveal_strlit("available");
    reveal_strlit("held");
    reveal_strlit("total");
    reveal_strlit("locked");
    assert(crate::report::header_text() =~= "client"@ + ","@ + "available"@ + ","@ + "held"@ + ","@
        + "total"@ + ","@ + "locked"@);
    lemma_one_field("client"@);
    lemma_next_field("client"@, "available"@);
    lemma_next_field("client"@ + ","@ + "available"@, "held"@);
    lemma_next_field("client"@ + ","@ + "available"@ + ","@ + "held"@, "total"@);
    lemma_next_field("client"@ + ","@ + "available"@ + ","@ + "held"@ + ","@ + "total"@, "locked"@);
}

/// The report has a line for each account, in the order of the accounts.
pub proof fn law_every_account_has_a_line(accounts: Seq<AccountView>, i: int)
    requires
        0 <= i < accounts.len(),
    ensures
        crate::report::account_lines(accounts).len() == accounts.len(),
        crate::report::account_lines(accounts)[i] == crate::report::account_line(accounts[i]),
{
}

/// Views show every field, and lists of them show every element.
pub proof fn law_views_show_everything(
    account: Account,
    tx: Transaction,
    accounts: Seq<Account>,
    txs: Seq<Transaction>,
    lines: Seq<String>,
    i: int,
)
    ensures
        account@.client_id == account.client_id,
        account@.available == account.available@,
        account@.held == account.held@,
        account@.total == account.total@,
        account@.locked == account.locked,
        tx@.tx_type == tx.tx_type,
        tx@.client_id == tx.client_id,
        tx@.tx_id == tx.tx_id,
        tx@.amount == tx.amount@,
        crate::paging::account_views(accounts).len() == accounts.len(),
        0 <= i < accounts.len() ==> crate::paging::account_views(accounts)[i] == accounts[i]@,
        crate::processor::tx_views(txs).len() == txs.len(),
        0 <= i < txs.len() ==> crate::processor::tx_views(txs)[i] == txs[i]@,
        crate::report::line_texts(lines).len() == lines.len(),
        0 <= i < lines.len() ==> crate::report::line_texts(lines)[i] == lines[i]@,
{
}

/// What may be missing is missing exactly when there is nothing.
pub proof fn law_options_show_what_is_there(a: Amount, account: Account, tx: Transaction)
    ensures
        Dec::of(Some(a)) == Some(a@),
        Dec::of(None) == None::<Dec>,
        AccountView::of(Some(account)) == Some(account@),
        AccountView::of(None) == None::<AccountView>,
        crate::processor::found(Some(tx)) == Some(tx@),
        crate::processor::found(None) == None::<crate::domain::TxView>,
{
}

} // verus!
