//! Collecting a listing that the note application serves one page at a time.
//!
//! Pages are numbered from 1. After each page the caller hands its items and
//! its "more pages" flag to a [`Pager`], which decides whether another page is
//! requested and keeps the items in the order the server gave them.
use vstd::prelude::*;

use crate::endpoint::{page_url, page_url_of};

verus! {

/// What a [`Pager`] has seen so far.
pub ghost struct PagerState<T> {
    /// Pages received.
    pub pages: nat,
    /// Their items, page after page.
    pub items: Seq<T>,
    /// Whether the last page received said that no more follow.
    pub done: bool,
}

/// The state before any page.
pub open spec fn fresh_state<T>() -> PagerState<T> {
    PagerState { pages: 0, items: Seq::empty(), done: false }
}

/// The state after one more page, holding `items`, that says whether `more` follow.
pub open spec fn after_page<T>(s: PagerState<T>, items: Seq<T>, more: bool) -> PagerState<T> {
    PagerState { pages: s.pages + 1, items: s.items + items, done: !more }
}

/// A collection run against a server that would answer with `served`, in order:
/// pages are requested while the last one received said that more follow.
pub open spec fn collect<T>(s: PagerState<T>, served: Seq<(Seq<T>, bool)>) -> PagerState<T>
    decreases served.len(),
{
    if s.done || served.len() == 0 {
        s
    } else {
        collect(after_page(s, served[0].0, served[0].1), served.drop_first())
    }
}

/// The items of `pages`, one page after the other.
pub open spec fn concat_pages<T>(pages: Seq<(Seq<T>, bool)>) -> Seq<T>
    decreases pages.len(),
{
    if pages.len() == 0 {
        Seq::empty()
    } else {
        concat_pages(pages.drop_last()) + pages.last().0
    }
}

/// Whether `served` starts with exactly `n` pages of a listing: each of the
/// first `n - 1` says that more follow, and page `n` says that none do.
pub open spec fn listing_of_length<T>(served: Seq<(Seq<T>, bool)>, n: nat) -> bool {
    &&& 0 < n <= served.len()
    &&& forall|i: int| 0 <= i < n - 1 ==> (#[trigger] served[i]).1
    &&& !served[n - 1].1
}

proof fn lemma_collect_prefix<T>(s: PagerState<T>, served: Seq<(Seq<T>, bool)>, n: nat)
    requires
        !s.done,
        listing_of_length(served, n),
    ensures
        collect(s, served) == (PagerState {
            pages: s.pages + n,
            items: s.items + concat_pages(served.take(n as int)),
            done: true,
        }),
    decreases n,
{
    let next = after_page(s, served[0].0, served[0].1);
    let rest = served.drop_first();
    if n == 1 {
        assert(served.take(1).drop_last() =~= Seq::<(Seq<T>, bool)>::empty());
        assert(concat_pages(Seq::<(Seq<T>, bool)>::empty()) =~= Seq::<T>::empty());
        assert(served.take(1).last() == served[0]);
        assert(concat_pages(served.take(1)) =~= served[0].0);
        assert(collect(next, rest) == next);
    } else {
        assert(served[0].1);
        assert forall|i: int| 0 <= i < (n - 1) - 1 && i < rest.len() implies (#[trigger] rest[i]).1 by {
            assert(rest[i] == served[i + 1]);
        }
        assert(rest[(n - 1) - 1] == served[n - 1]);
        lemma_collect_prefix(next, rest, (n - 1) as nat);
        lemma_concat_pages_front(served.take(n as int));
        assert(served.take(n as int).drop_first() =~= rest.take(n - 1));
        assert(s.items + served[0].0 + concat_pages(rest.take(n - 1)) =~= s.items + (served[0].0
            + concat_pages(rest.take(n - 1))));
    }
}

proof fn lemma_concat_pages_front<T>(pages: Seq<(Seq<T>, bool)>)
    requires
        pages.len() > 0,
    ensures
        concat_pages(pages) == pages[0].0 + concat_pages(pages.drop_first()),
    decreases pages.len(),
{
    if pages.len() == 1 {
        assert(pages.drop_last() =~= Seq::<(Seq<T>, bool)>::empty());
        assert(pages.drop_first() =~= Seq::<(Seq<T>, bool)>::empty());
        assert(concat_pages(pages) =~= pages[0].0);
    } else {
        lemma_concat_pages_front(pages.drop_last());
        assert(pages.drop_last().drop_first() =~= pages.drop_first().drop_last());
        assert(pages.drop_first().last() == pages.last());
        assert(concat_pages(pages) =~= pages[0].0 + concat_pages(pages.drop_first()));
    }
}

/// A listing of `n` pages is collected whole: exactly `n` pages are requested,
/// whatever the server would serve after them, and the items come out in the
/// server's order.
pub proof fn lemma_collect_complete<T>(served: Seq<(Seq<T>, bool)>, n: nat)
    requires
        listing_of_length(served, n),
    ensures
        collect(fresh_state(), served) == (PagerState {
            pages: n,
            items: concat_pages(served.take(n as int)),
            done: true,
        }),
{
    lemma_collect_prefix(fresh_state::<T>(), served, n);
    assert(Seq::<T>::empty() + concat_pages(served.take(n as int)) =~= concat_pages(
        served.take(n as int),
    ));
}

/// A listing whose first page is empty and says that no more follow ends after
/// that one request, with no items.
pub proof fn lemma_collect_single_empty_page<T>(served: Seq<(Seq<T>, bool)>)
    requires
        served.len() > 0,
        served[0] == (Seq::<T>::empty(), false),
    ensures
        collect(fresh_state(), served) == (PagerState::<T> { pages: 1, items: Seq::empty(), done: true }),
{
    lemma_collect_complete(served, 1);
    assert(served.take(1).drop_last() =~= Seq::<(Seq<T>, bool)>::empty());
    assert(concat_pages(Seq::<(Seq<T>, bool)>::empty()) =~= Seq::<T>::empty());
    assert(served.take(1).last() == served[0]);
    assert(concat_pages(served.take(1)) =~= Seq::<T>::empty());
}

/// Collects the pages of one listing.
pub struct Pager<T> {
    base: String,
    pages: u64,
    done: bool,
    items: Vec<T>,
}

impl<T> View for Pager<T> {
    type V = PagerState<T>;

    closed spec fn view(&self) -> PagerState<T> {
        PagerState { pages: self.pages as nat, items: self.items@, done: self.done }
    }
}

impl<T> Pager<T> {
    /// The address of the listing, without a page number.
    pub closed spec fn base_spec(&self) -> Seq<char> {
        self.base@
    }

    /// A pager for the listing at `base`, before its first page.
    pub fn new(base: &str) -> (r: Pager<T>)
        ensures
            r@ == fresh_state::<T>(),
            r.base_spec() == base@,
    {
        Pager { base: base.to_owned(), pages: 0, done: false, items: Vec::new() }
    }

    /// Whether the last page received said that no more follow.
    pub fn is_done(&self) -> (r: bool)
        ensures
            r == self@.done,
    {
        self.done
    }

    /// How many pages have been received.
    pub fn pages_received(&self) -> (r: u64)
        ensures
            r as nat == self@.pages,
    {
        self.pages
    }

    /// The address of the page to request next.
    pub fn next_page_url(&self) -> (r: String)
        requires
            self@.pages < u64::MAX,
        ensures
            r@ == page_url_of(self.base_spec(), self@.pages + 1),
    {
        page_url(self.base.as_str(), self.pages + 1)
    }

    /// Takes in the next page: its items, and whether more pages follow.
    pub fn receive(&mut self, items: Vec<T>, more: bool)
        requires
            !old(self)@.done,
            old(self)@.pages < u64::MAX,
        ensures
            final(self)@ == after_page(old(self)@, items@, more),
            final(self).base_spec() == old(self).base_spec(),
    {
        let mut items = items;
        self.items.append(&mut items);
        self.pages = self.pages + 1;
        self.done = !more;
    }

    /// The items of every page received, in the server's order.
    pub fn into_items(self) -> (r: Vec<T>)
        ensures
            r@ == self@.items,
    {
        self.items
    }
}

} // verus!
