//! Laws of paging: the pages show everything, once, in order.

use vstd::prelude::*;

verus! {

/// The first `n` pages, one after the other.
pub open spec fn first_pages<T>(all: Seq<T>, n: nat, page_size: nat) -> Seq<T>
    decreases n,
{
    if n == 0 {
        Seq::empty()
    } else {
        first_pages(all, (n - 1) as nat, page_size) + crate::paging::page_of(
            all,
            (n - 1) as nat,
            page_size,
        )
    }
}

/// The first pages together are the beginning of the listing, as far as they reach.
pub proof fn law_pages_are_consecutive<T>(all: Seq<T>, n: nat, page_size: nat)
    ensures
        first_pages(all, n, page_size) == all.take(
            if n * page_size <= all.len() {
                (n * page_size) as int
            } else {
                all.len() as int
            },
        ),
    decreases n,
{
    if n > 0 {
        let m = (n - 1) as nat;
        law_pages_are_consecutive(all, m, page_size);
        assert(n * page_size == m * page_size + page_size) by (nonlinear_arith)
            requires
                n == m + 1,
        ;
    }
}

/// The first empty page comes when everything has been shown, and no later page shows anything.
pub proof fn law_reading_to_the_first_empty_page_shows_everything<T>(
    all: Seq<T>,
    page: nat,
    page_size: nat,
)
    requires
        page_size > 0,
        crate::paging::page_of(all, page, page_size).len() == 0,
    ensures
        first_pages(all, page, page_size) == all,
        forall|later: nat|
            page <= later ==> #[trigger] crate::paging::page_of(all, later, page_size)
                == Seq::<T>::empty(),
{
    law_pages_are_consecutive(all, page, page_size);
    assert(all.take(all.len() as int) =~= all);
    assert forall|later: nat| page <= later implies #[trigger] crate::paging::page_of(
        all,
        later,
        page_size,
    ) == Seq::<T>::empty() by {
        assert(page * page_size <= later * page_size) by (nonlinear_arith)
            requires
                page <= later,
        ;
    }
}

/// A page shows the elements from where it starts, and is full unless the listing ends on it.
pub proof fn law_pages_show_the_listing<T>(all: Seq<T>, page: nat, page_size: nat, i: int)
    ensures
        page * page_size + page_size <= all.len() ==> crate::paging::page_of(
            all,
            page,
            page_size,
        ).len() == page_size,
        page * page_size <= all.len() < page * page_size + page_size ==> crate::paging::page_of(
            all,
            page,
            page_size,
        ).len() == all.len() - page * page_size,
        all.len() < page * page_size ==> crate::paging::page_of(all, page, page_size).len() == 0,
        0 <= i < crate::paging::page_of(all, page, page_size).len() ==> crate::paging::page_of(
            all,
            page,
            page_size,
        )[i] == all[page * page_size + i],
{
}

/// No page is longer than the page size.
pub proof fn law_pages_are_bounded<T>(all: Seq<T>, page: nat, page_size: nat)
    ensures
        crate::paging::page_of(all, page, page_size).len() <= page_size,
{
}

} // verus!
