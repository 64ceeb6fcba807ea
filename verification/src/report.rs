//! The account report: one line of comma-separated values for each account.

use crate::amount::{Amount, Dec};
use crate::domain::{Account, AccountView};
use crate::ledger::Ledger;
use crate::ports::Storage;
use vstd::prelude::*;

verus! {

/// The number of decimal places of a balance in the report.
pub const REPORT_PLACES: u32 = 4;

/// The first line of the report.
pub open spec fn header_text() -> Seq<char> {
    "client,available,held,total,locked"@
}

/// A balance as the report shows it: rounded half to even to four decimal places, without zeros
/// at the end.
pub open spec fn balance_text(balance: Dec) -> Seq<char> {
    balance.rounded(REPORT_PLACES as nat).stripped().text()
}

/// `true` or `false`.
pub open spec fn flag_text(flag: bool) -> Seq<char> {
    if flag {
        "true"@
    } else {
        "false"@
    }
}

/// The line of the report that shows `account`.
pub open spec fn account_line(account: AccountView) -> Seq<char> {
    crate::amount::decimal_text(account.client_id as nat) + ","@ + balance_text(account.available)
        + ","@ + balance_text(account.held) + ","@ + balance_text(account.total) + ","@
        + flag_text(account.locked)
}

/// The first line of the report.
pub fn csv_header() -> (r: &'static str)
    ensures
        r@ == header_text(),
{
    "client,available,held,total,locked"
}

fn digit_str(d: u16) -> (r: &'static str)
    requires
        d < 10,
    ensures
        r@ == seq![crate::amount::digit(d as int)],
{
    proof {
        reveal_strlit("0");
        reveal_strlit("1");
        reveal_strlit("2");
        reveal_strlit("3");
        reveal_strlit("4");
        reveal_strlit("5");
        reveal_strlit("6");
        reveal_strlit("7");
        reveal_strlit("8");
        reveal_strlit("9");
    }
    let r = match d {
        0 => "0",
        1 => "1",
        2 => "2",
        3 => "3",
        4 => "4",
        5 => "5",
        6 => "6",
        7 => "7",
        8 => "8",
        _ => "9",
    };
    assert(r@ =~= seq![crate::amount::digit(d as int)]);
    r
}

/// Appends `n` in decimal notation.
fn append_number(out: &mut String, n: u16)
    ensures
        final(out)@ == old(out)@ + crate::amount::decimal_text(n as nat),
    decreases n,
{
    if n >= 10 {
        append_number(out, n / 10);
    }
    out.append(digit_str(n % 10));
    assert(out@ =~= old(out)@ + crate::amount::decimal_text(n as nat));
}

/// A balance as the report shows it.
pub fn format_balance(balance: Amount) -> (r: String)
    ensures
        r@ == balance_text(balance@),
{
    balance.round_dp(REPORT_PLACES).normalize().text()
}

/// The line of the report that shows `account`.
pub fn format_account(account: &Account) -> (r: String)
    ensures
        r@ == account_line(account@),
{
    let mut line = String::new();
    append_number(&mut line, account.client_id);
    line.append(",");
    line.append(format_balance(account.available).as_str());
    line.append(",");
    line.append(format_balance(account.held).as_str());
    line.append(",");
    line.append(format_balance(account.total).as_str());
    line.append(",");
    if account.locked {
        line.append("true");
    } else {
        line.append("false");
    }
    assert(line@ =~= account_line(account@));
    line
}

/// What a list of lines says.
pub open spec fn line_texts(lines: Seq<String>) -> Seq<Seq<char>> {
    lines.map_values(|line: String| line@)
}

/// The lines of the report that show `accounts`, in order.
pub open spec fn account_lines(accounts: Seq<AccountView>) -> Seq<Seq<char>> {
    accounts.map_values(|a: AccountView| account_line(a))
}

/// The lines of the report that show `accounts`, in order.
pub fn format_accounts(accounts: &Vec<Account>) -> (r: Vec<String>)
    ensures
        line_texts(r@) == account_lines(crate::paging::account_views(accounts@)),
{
    let mut lines: Vec<String> = Vec::new();
    let mut i: usize = 0;
    while i < accounts.len()
        invariant
            i <= accounts.len(),
            line_texts(lines@) == account_lines(
                crate::paging::account_views(accounts@),
            ).take(i as int),
        decreases accounts.len() - i,
    {
        let ghost before = line_texts(lines@);
        lines.push(format_account(&accounts[i]));
        assert(line_texts(lines@) =~= before.push(account_line(accounts@[i as int]@)));
        i = i + 1;
        assert(line_texts(lines@) =~= account_lines(
            crate::paging::account_views(accounts@),
        ).take(i as int));
    }
    assert(account_lines(crate::paging::account_views(accounts@)).take(i as int) =~= account_lines(
        crate::paging::account_views(accounts@),
    ));
    lines
}

/// A listing has at most as many accounts as there are client ids.
proof fn lemma_listing_is_short(ledger: Ledger, listing: Seq<AccountView>)
    requires
        ledger.lists(listing),
    ensures
        listing.len() <= 0x1_0000,
{
    let clients = choose|clients: Seq<u16>| #[trigger]
        clients.no_duplicates() && clients.to_set() == ledger.accounts.dom() && listing
            == clients.map_values(|c: u16| ledger.accounts[c]);
    let ids = clients.map_values(|c: u16| c as int);
    assert(ids.no_duplicates());
    ids.unique_seq_to_set();
    vstd::set_lib::lemma_int_range(0, 0x1_0000);
    assert(ids.to_set().subset_of(vstd::set_lib::set_int_range(0, 0x1_0000)));
    vstd::set_lib::lemma_len_subset(ids.to_set(), vstd::set_lib::set_int_range(0, 0x1_0000));
}

/// The number of accounts that the report asks the storage for at a time.
pub const REPORT_PAGE_SIZE: usize = 512;

/// The whole report: the header, and a line for each account in the order in which the storage
/// lists them. The accounts are fetched page by page, up to the first page that is empty.
pub fn account_report<S: Storage + ?Sized>(storage: &S) -> (r: Result<
    Vec<String>,
    S::Error,
>)
    ensures
        r matches Ok(lines) ==> line_texts(lines@) == seq![header_text()] + account_lines(
            storage.listing(),
        ),
        r is Ok ==> storage.ledger().lists(storage.listing()),
        r matches Err(e) ==> storage.faults().contains(e),
        storage.faults() == Set::<S::Error>::empty() ==> r is Ok,
{
    let mut lines: Vec<String> = Vec::new();
    lines.push(String::from_str(csv_header()));
    let mut page: usize = 0;
    loop
        invariant
            page * REPORT_PAGE_SIZE <= 0x1_0000 + REPORT_PAGE_SIZE,
            page > 0 ==> (page - 1) * REPORT_PAGE_SIZE < storage.listing().len(),
            line_texts(lines@) == seq![header_text()] + account_lines(storage.listing()).take(
                if page * REPORT_PAGE_SIZE <= storage.listing().len() {
                    page * REPORT_PAGE_SIZE
                } else {
                    storage.listing().len() as int
                },
            ),
        ensures
            line_texts(lines@) == seq![header_text()] + account_lines(storage.listing()),
            storage.ledger().lists(storage.listing()),
        decreases storage.listing().len() + REPORT_PAGE_SIZE - page * REPORT_PAGE_SIZE,
    {
        let accounts = match storage.all_accounts(page, REPORT_PAGE_SIZE) {
            Ok(accounts) => accounts,
            Err(e) => {
                return Err(e);
            },
        };
        proof {
            lemma_listing_is_short(storage.ledger(), storage.listing());
        }
        assert(accounts@.len() == crate::paging::account_views(accounts@).len());
        if accounts.len() == 0 {
            assert(account_lines(storage.listing()).take(storage.listing().len() as int)
                =~= account_lines(storage.listing()));
            break;
        }
        let mut new_lines = format_accounts(&accounts);
        let ghost before = lines@;
        let ghost added = new_lines@;
        lines.append(&mut new_lines);
        assert(line_texts(lines@) =~= line_texts(before) + line_texts(added));
        page = page + 1;
    }
    Ok(lines)
}

} // verus!
