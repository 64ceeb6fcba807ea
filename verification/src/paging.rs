//! Listings in pages.

use crate::domain::{Account, AccountView};
use vstd::prelude::*;

verus! {

/// What a list of accounts says.
pub open spec fn account_views(accounts: Seq<Account>) -> Seq<AccountView> {
    accounts.map_values(|a: Account| a@)
}

/// The elements of `all` on page number `page`, when every page takes `page_size` of them.
pub open spec fn page_of<T>(all: Seq<T>, page: nat, page_size: nat) -> Seq<T> {
    let start = page * page_size;
    if start >= all.len() {
        Seq::empty()
    } else if all.len() - start <= page_size {
        all.skip(start as int)
    } else {
        all.subrange(start as int, (start + page_size) as int)
    }
}

/// One page of a list of accounts.
pub fn take_page(accounts: &Vec<Account>, page: usize, page_size: usize) -> (r: Vec<Account>)
    requires
        page * page_size <= usize::MAX,
    ensures
        r@ == page_of(accounts@, page as nat, page_size as nat),
{
    let start: usize = page * page_size;
    let mut taken: Vec<Account> = Vec::new();
    if start >= accounts.len() {
        return taken;
    }
    let rest: usize = accounts.len() - start;
    let count: usize = if rest <= page_size {
        rest
    } else {
        page_size
    };
    let mut i: usize = 0;
    while i < count
        invariant
            i <= count,
            start + count <= accounts.len(),
            taken@ == accounts@.subrange(start as int, start + i),
        decreases count - i,
    {
        taken.push(accounts[start + i]);
        i = i + 1;
        assert(taken@ =~= accounts@.subrange(start as int, start + i));
    }
    taken
}

} // verus!
