//! Lazy, page-driven enumeration of search results.
//!
//! A [`Paginator`] is a cursor over the results of one query. It never fetches
//! anything itself: it says which page it needs next, the caller fetches that
//! page and feeds it back, and the items come out one by one in page order.
use vstd::prelude::*;

use crate::github_api::Page;

verus! {

/// Number of items the search API returns on a full page.
pub const PER_PAGE: usize = 100;

/// Highest page number fetched for one query: the search API serves at most
/// one thousand results per query, that is ten full pages.
pub const MAX_PAGES: usize = 10;

/// The page that follows page `page` after it returned `len` items, if any:
/// enumeration stops after a short page or after the page ceiling.
pub open spec fn next_page_spec(page: nat, len: nat, per_page: nat) -> Option<nat> {
    if page >= MAX_PAGES || len < per_page {
        None
    } else {
        Some(page + 1)
    }
}

/// The items an enumeration yields from page `page` on, when the server
/// answers page `p` with `server(p)`.
pub open spec fn yielded_from<T>(server: spec_fn(nat) -> Seq<T>, per_page: nat, page: nat) -> Seq<T>
    decreases MAX_PAGES + 1 - page,
{
    if page < 1 || page > MAX_PAGES {
        Seq::empty()
    } else {
        server(page) + match next_page_spec(page, server(page).len(), per_page) {
            Some(n) => yielded_from(server, per_page, n),
            None => Seq::empty(),
        }
    }
}

/// The number of page fetches an enumeration makes from page `page` on.
pub open spec fn fetches_from<T>(server: spec_fn(nat) -> Seq<T>, per_page: nat, page: nat) -> nat
    decreases MAX_PAGES + 1 - page,
{
    if page < 1 || page > MAX_PAGES {
        0
    } else {
        1 + match next_page_spec(page, server(page).len(), per_page) {
            Some(n) => fetches_from(server, per_page, n),
            None => 0,
        }
    }
}

/// A server holding `all` and answering page `p` with its `p`-th slice of
/// `per_page` items (empty past the end).
pub open spec fn chunked<T>(all: Seq<T>, per_page: nat) -> spec_fn(nat) -> Seq<T> {
    |p: nat|
        {
            let lo = if (p - 1) * per_page <= all.len() { (p - 1) * per_page } else { all.len() as int };
            let hi = if p * per_page <= all.len() { (p * per_page) as int } else { all.len() as int };
            all.subrange(lo, hi)
        }
}

pub open spec fn min_int(a: int, b: int) -> int {
    if a <= b { a } else { b }
}

pub open spec fn div_ceil(a: int, b: int) -> int
    recommends
        b > 0,
{
    if a % b == 0 { a / b } else { a / b + 1 }
}

/// Arithmetic on the page bounds of `n` items in pages of `s`, under the
/// conditions of `lemma_paginate_chunked`.
proof fn lemma_page_arith(n: nat, s: nat, p: nat)
    requires
        s > 0,
        1 <= p,
        n % s != 0 || n >= MAX_PAGES * s,
        n < MAX_PAGES * s ==> p <= n / s + 1,
        n >= MAX_PAGES * s ==> p <= MAX_PAGES,
    ensures
        (p - 1) * s <= min_int(n as int, MAX_PAGES * s),
        n >= MAX_PAGES * s ==> p * s <= n && p * s <= MAX_PAGES * s,
        p * s == (p - 1) * s + s,
        n < MAX_PAGES * s ==> n / s + 1 <= MAX_PAGES,
        n < MAX_PAGES * s && p <= n / s ==> p * s <= n,
        n < MAX_PAGES * s && p == n / s + 1 ==> p * s > n && (p - 1) * s <= n && n - (p - 1) * s
            < s,
        div_ceil(min_int(n as int, MAX_PAGES * s), s as int) == if n >= MAX_PAGES * s {
            MAX_PAGES as int
        } else {
            (n / s + 1) as int
        },
{
    vstd::arithmetic::div_mod::lemma_fundamental_div_mod(n as int, s as int);
    assert(p * s == (p - 1) * s + s) by (nonlinear_arith)
        requires 1 <= p;
    let q = n / s;
    let r = n % s;
    assert(0 <= r < s);
    if n >= MAX_PAGES * s {
        assert((p - 1) * s <= MAX_PAGES * s) by (nonlinear_arith)
            requires p <= MAX_PAGES, s > 0, 1 <= p;
        assert(p * s <= MAX_PAGES * s) by (nonlinear_arith)
            requires p <= MAX_PAGES, s > 0;
        vstd::arithmetic::div_mod::lemma_mod_multiples_basic(MAX_PAGES as int, s as int);
        vstd::arithmetic::div_mod::lemma_div_multiples_vanish(MAX_PAGES as int, s as int);
    } else {
        assert(q < MAX_PAGES) by (nonlinear_arith)
            requires n == s * q + r, 0 <= r, n < MAX_PAGES * s, s > 0;
        assert((p - 1) * s <= q * s) by (nonlinear_arith)
            requires p <= q + 1, s > 0, 1 <= p;
        assert(q * s <= n) by (nonlinear_arith)
            requires n == s * q + r, 0 <= r;
        if p <= q {
            assert(p * s <= q * s) by (nonlinear_arith)
                requires p <= q, s > 0;
        }
        if p == q + 1 {
            assert(p * s == q * s + s) by (nonlinear_arith)
                requires p == q + 1;
            assert(n - q * s == r) by (nonlinear_arith)
                requires n == s * q + r;
        }
    }
}

/// Enumeration over a server that holds `all` and serves it in pages of
/// `per_page` items yields the first `min(|all|, 10 * per_page)` items of
/// `all` in their order, and makes `ceil(min(|all|, 10 * per_page) / per_page)`
/// page fetches. The count of fetches needs the last page to be short or the
/// ceiling to be reached: when `|all|` is a multiple of `per_page` below the
/// ceiling, one more fetch, of an empty page, tells the end.
pub proof fn lemma_paginate_chunked<T>(all: Seq<T>, per_page: nat)
    requires
        per_page > 0,
        all.len() % per_page != 0 || all.len() >= MAX_PAGES * per_page,
    ensures
        yielded_from(chunked(all, per_page), per_page, 1) == all.take(
            min_int(all.len() as int, MAX_PAGES * per_page),
        ),
        fetches_from(chunked(all, per_page), per_page, 1) == div_ceil(
            min_int(all.len() as int, MAX_PAGES * per_page),
            per_page as int,
        ),
{
    lemma_page_arith(all.len(), per_page, 1);
    lemma_paginate_chunked_from(all, per_page, 1);
    assert(all.subrange(0, min_int(all.len() as int, MAX_PAGES * per_page)) =~= all.take(
        min_int(all.len() as int, MAX_PAGES * per_page),
    ));
}

proof fn lemma_paginate_chunked_from<T>(all: Seq<T>, s: nat, p: nat)
    requires
        s > 0,
        1 <= p,
        all.len() % s != 0 || all.len() >= MAX_PAGES * s,
        all.len() < MAX_PAGES * s ==> p <= all.len() / s + 1,
        all.len() >= MAX_PAGES * s ==> p <= MAX_PAGES,
    ensures
        yielded_from(chunked(all, s), s, p) == all.subrange(
            (p - 1) * s,
            min_int(all.len() as int, MAX_PAGES * s),
        ),
        fetches_from(chunked(all, s), s, p) + p == 1 + div_ceil(
            min_int(all.len() as int, MAX_PAGES * s),
            s as int,
        ),
    decreases MAX_PAGES + 1 - p,
{
    let n = all.len();
    let c = min_int(n as int, MAX_PAGES * s);
    let server = chunked(all, s);
    lemma_page_arith(n, s, p);
    let page = server(p);
    let last = if n >= MAX_PAGES * s { p == MAX_PAGES } else { p == n / s + 1 };
    if last {
        if n >= MAX_PAGES * s {
            assert(page =~= all.subrange((p - 1) * s, c));
        } else {
            assert(page =~= all.subrange((p - 1) * s, c));
            assert(page.len() < s);
        }
        assert(next_page_spec(p, page.len(), s) is None);
    } else {
        assert(page.len() == s);
        assert(p < MAX_PAGES);
        lemma_paginate_chunked_from(all, s, p + 1);
        assert(page + all.subrange((p * s) as int, c) =~= all.subrange((p - 1) * s, c));
    }
}

/// A server that answers every page up to the ceiling with a full page is
/// asked for exactly `MAX_PAGES` pages, whatever it would answer after.
pub proof fn lemma_full_pages_stop_at_ceiling<T>(server: spec_fn(nat) -> Seq<T>, per_page: nat)
    requires
        forall|p: nat| 1 <= p <= MAX_PAGES ==> #[trigger] server(p).len() >= per_page,
    ensures
        fetches_from(server, per_page, 1) == MAX_PAGES,
{
    lemma_full_pages_from(server, per_page, 1);
}

proof fn lemma_full_pages_from<T>(server: spec_fn(nat) -> Seq<T>, per_page: nat, p: nat)
    requires
        1 <= p <= MAX_PAGES,
        forall|q: nat| 1 <= q <= MAX_PAGES ==> #[trigger] server(q).len() >= per_page,
    ensures
        fetches_from(server, per_page, p) + p == MAX_PAGES + 1,
    decreases MAX_PAGES + 1 - p,
{
    assert(server(p).len() >= per_page);
    if p < MAX_PAGES {
        lemma_full_pages_from(server, per_page, p + 1);
    }
}

/// `next_page_spec`, computed.
pub fn next_page(page: usize, len: usize, per_page: usize) -> (r: Option<usize>)
    requires
        1 <= page,
    ensures
        r.is_some() == next_page_spec(page as nat, len as nat, per_page as nat).is_some(),
        r.is_some() ==> r.unwrap() == page + 1,
{
    if page >= MAX_PAGES || len < per_page {
        None
    } else {
        Some(page + 1)
    }
}

/// What an enumeration does next.
pub enum Step<Q, T> {
    /// Hand out this item.
    Item(T),
    /// Fetch this page of this query and feed it back.
    Fetch(Q, usize),
    /// Nothing is left.
    Done,
}

/// Cursor over the results of one query.
pub struct Paginator<Q, T> {
    query: Q,
    /// Number of the next page to fetch, from 1.
    page: usize,
    /// Items of the last page fetched that have not been handed out yet.
    buffer: Vec<T>,
    /// No further page will be fetched.
    exhausted: bool,
    /// The last page fetched was the page ceiling and was full.
    truncated: bool,
    per_page: usize,
    /// The pages fed so far, in order.
    fed: Ghost<Seq<Seq<T>>>,
    /// The items handed out so far, in order.
    handed: Ghost<Seq<T>>,
}

impl<Q, T> Paginator<Q, T> {
    pub closed spec fn pending(&self) -> Seq<T> {
        self.buffer@
    }

    pub closed spec fn page_number(&self) -> nat {
        self.page as nat
    }

    pub closed spec fn is_exhausted(&self) -> bool {
        self.exhausted
    }

    pub closed spec fn is_truncated(&self) -> bool {
        self.truncated
    }

    pub closed spec fn page_size(&self) -> nat {
        self.per_page as nat
    }

    pub closed spec fn query_spec(&self) -> Q {
        self.query
    }

    /// The pages fed so far, in order.
    pub closed spec fn pages_fed(&self) -> Seq<Seq<T>> {
        self.fed@
    }

    /// The items handed out so far, in order.
    pub closed spec fn handed_out(&self) -> Seq<T> {
        self.handed@
    }

    pub closed spec fn wf(&self) -> bool {
        let fed = self.fed@;
        &&& 1 <= self.page <= MAX_PAGES
        &&& self.truncated ==> self.exhausted
        &&& self.handed@ + self.buffer@ == fed.flatten_alt()
        &&& !self.exhausted ==> self.page == fed.len() + 1
        &&& self.exhausted ==> self.page == fed.len() && next_page_spec(
            self.page as nat,
            fed.last().len(),
            self.per_page as nat,
        ) is None
        &&& forall|i: int|
            0 <= i < fed.len() && (i + 1 < fed.len() || !self.exhausted) ==> next_page_spec(
                (i + 1) as nat,
                #[trigger] fed[i].len(),
                self.per_page as nat,
            ) == Some((i + 2) as nat)
    }

    /// A cursor at page 1 of `query`, with pages of `PER_PAGE` items.
    pub fn new(query: Q) -> (r: Self)
        ensures
            r.wf(),
            r.query_spec() == query,
            r.page_size() == PER_PAGE,
            r.page_number() == 1,
            r.pending() == Seq::<T>::empty(),
            !r.is_exhausted(),
            !r.is_truncated(),
            r.pages_fed() == Seq::<Seq<T>>::empty(),
            r.handed_out() == Seq::<T>::empty(),
    {
        Self::with_page_size(query, PER_PAGE)
    }

    /// A cursor at page 1 of `query`, with pages of `per_page` items.
    pub fn with_page_size(query: Q, per_page: usize) -> (r: Self)
        ensures
            r.wf(),
            r.query_spec() == query,
            r.page_size() == per_page,
            r.page_number() == 1,
            r.pending() == Seq::<T>::empty(),
            !r.is_exhausted(),
            !r.is_truncated(),
            r.pages_fed() == Seq::<Seq<T>>::empty(),
            r.handed_out() == Seq::<T>::empty(),
    {
        Paginator {
            query,
            page: 1,
            buffer: Vec::new(),
            exhausted: false,
            truncated: false,
            per_page,
            fed: Ghost(Seq::empty()),
            handed: Ghost(Seq::empty()),
        }
    }

    /// The query this cursor enumerates.
    pub fn query(&self) -> (r: &Q)
        ensures
            *r == self.query_spec(),
    {
        &self.query
    }

    /// The page to fetch and feed back before the next item can be handed
    /// out: there is one exactly when no item is pending and the enumeration
    /// has not ended.
    pub fn page_to_fetch(&self) -> (r: Option<usize>)
        requires
            self.wf(),
        ensures
            r.is_some() == (self.pending().len() == 0 && !self.is_exhausted()),
            r.is_some() ==> r.unwrap() == self.page_number(),
    {
        if self.buffer.len() == 0 && !self.exhausted {
            Some(self.page)
        } else {
            None
        }
    }

    /// Whether the enumeration has ended: no item is pending and no page is
    /// left to fetch.
    pub fn is_done(&self) -> (r: bool)
        ensures
            r == (self.pending().len() == 0 && self.is_exhausted()),
    {
        self.buffer.len() == 0 && self.exhausted
    }

    /// Whether the enumeration stopped at the page ceiling on a full page, so
    /// that the query may have matched more results than were served.
    pub fn possibly_truncated(&self) -> (r: bool)
        ensures
            r == self.is_truncated(),
    {
        self.truncated
    }

    /// Hands in the items of the page `page_to_fetch` asked for. They become
    /// pending in the page's order; the cursor moves on to the next page, or
    /// ends after a short page or the page ceiling.
    pub fn feed_page(&mut self, page: Page<T>)
        requires
            old(self).wf(),
            old(self).pending().len() == 0,
            !old(self).is_exhausted(),
        ensures
            final(self).wf(),
            final(self).query_spec() == old(self).query_spec(),
            final(self).page_size() == old(self).page_size(),
            final(self).pending() == page.items@,
            final(self).pages_fed() == old(self).pages_fed().push(page.items@),
            final(self).handed_out() == old(self).handed_out(),
            match next_page_spec(old(self).page_number(), page.items@.len(), old(self).page_size()) {
                Some(n) => !final(self).is_exhausted() && final(self).page_number() == n,
                None => final(self).is_exhausted() && final(self).page_number() == old(self).page_number(),
            },
            final(self).is_truncated() == (old(self).page_number() == MAX_PAGES && page.items@.len()
                >= old(self).page_size()),
    {
        let len: usize = page.items.len();
        match next_page(self.page, len, self.per_page) {
            Some(n) => {
                self.page = n;
            },
            None => {
                self.exhausted = true;
                self.truncated = self.page == MAX_PAGES && len >= self.per_page;
            },
        }
        proof {
            let fed = self.fed@.push(page.items@);
            assert(fed.drop_last() =~= self.fed@);
            assert(self.handed@ + page.items@ =~= fed.flatten_alt());
            assert forall|i: int|
                0 <= i < fed.len() && (i + 1 < fed.len() || !self.exhausted) implies next_page_spec(
                (i + 1) as nat,
                #[trigger] fed[i].len(),
                self.per_page as nat,
            ) == Some((i + 2) as nat) by {
                if i + 1 < fed.len() {
                    assert(fed[i] == old(self).fed@[i]);
                }
            }
            self.fed = Ghost(fed);
        }
        self.buffer = page.items;
    }

    /// The next pending item, in page order; `None` when none is pending
    /// (then either a page is to be fetched or the enumeration has ended).
    pub fn next_item(&mut self) -> (r: Option<T>)
        requires
            old(self).wf(),
        ensures
            final(self).wf(),
            final(self).query_spec() == old(self).query_spec(),
            final(self).page_size() == old(self).page_size(),
            final(self).page_number() == old(self).page_number(),
            final(self).is_exhausted() == old(self).is_exhausted(),
            final(self).is_truncated() == old(self).is_truncated(),
            final(self).pages_fed() == old(self).pages_fed(),
            old(self).pending().len() == 0 ==> r.is_none() && final(self).pending() == old(self).pending()
                && final(self).handed_out() == old(self).handed_out(),
            old(self).pending().len() > 0 ==> r == Some(old(self).pending()[0])
                && final(self).pending() == old(self).pending().drop_first()
                && final(self).handed_out() == old(self).handed_out().push(old(self).pending()[0]),
    {
        if self.buffer.len() == 0 {
            None
        } else {
            let item = self.buffer.remove(0);
            proof {
                assert(self.handed@.push(item) + self.buffer@ =~= self.handed@ + old(self).buffer@);
                self.handed = Ghost(self.handed@.push(item));
            }
            Some(item)
        }
    }
}

impl<Q: Copy, T> Paginator<Q, T> {
    /// The next step: the next pending item, else the page to fetch, else
    /// the end.
    pub fn step(&mut self) -> (r: Step<Q, T>)
        requires
            old(self).wf(),
        ensures
            final(self).wf(),
            final(self).query_spec() == old(self).query_spec(),
            final(self).page_size() == old(self).page_size(),
            final(self).page_number() == old(self).page_number(),
            final(self).is_exhausted() == old(self).is_exhausted(),
            final(self).is_truncated() == old(self).is_truncated(),
            final(self).pages_fed() == old(self).pages_fed(),
            old(self).pending().len() > 0 ==> r == Step::<Q, T>::Item(old(self).pending()[0])
                && final(self).pending() == old(self).pending().drop_first()
                && final(self).handed_out() == old(self).handed_out().push(old(self).pending()[0]),
            old(self).pending().len() == 0 ==> final(self).pending() == old(self).pending()
                && final(self).handed_out() == old(self).handed_out(),
            old(self).pending().len() == 0 && !old(self).is_exhausted() ==> r == Step::<Q, T>::Fetch(
                old(self).query_spec(),
                old(self).page_number() as usize,
            ),
            old(self).pending().len() == 0 && old(self).is_exhausted() ==> r is Done,
    {
        if let Some(page) = self.page_to_fetch() {
            return Step::Fetch(self.query, page);
        }
        match self.next_item() {
            Some(item) => Step::Item(item),
            None => Step::Done,
        }
    }
}

/// A cursor that has run to its end, fed page `p` with `server(p)` each time,
/// has handed out exactly what `yielded_from` says, after exactly the number
/// of fetches `fetches_from` says.
pub proof fn lemma_cursor_follows_server<Q, T>(c: Paginator<Q, T>, server: spec_fn(nat) -> Seq<T>)
    requires
        c.wf(),
        c.is_exhausted(),
        c.pending().len() == 0,
        forall|i: int| 0 <= i < c.pages_fed().len() ==> #[trigger] c.pages_fed()[i] == server((i + 1) as nat),
    ensures
        c.handed_out() == yielded_from(server, c.page_size(), 1),
        c.pages_fed().len() == fetches_from(server, c.page_size(), 1),
{
    let fed = c.pages_fed();
    lemma_fed_pages_from(c, server, 1);
    assert(fed.subrange(0, fed.len() as int) =~= fed);
    fed.lemma_flatten_and_flatten_alt_are_equivalent();
    assert(c.handed_out() =~= c.handed_out() + c.pending());
}

proof fn lemma_fed_pages_from<Q, T>(c: Paginator<Q, T>, server: spec_fn(nat) -> Seq<T>, k: nat)
    requires
        c.wf(),
        c.is_exhausted(),
        forall|i: int| 0 <= i < c.pages_fed().len() ==> #[trigger] c.pages_fed()[i] == server((i + 1) as nat),
        1 <= k <= c.pages_fed().len(),
    ensures
        yielded_from(server, c.page_size(), k) == c.pages_fed().subrange(k - 1, c.pages_fed().len() as int).flatten(),
        fetches_from(server, c.page_size(), k) + k == c.pages_fed().len() + 1,
    decreases c.pages_fed().len() - k,
{
    let fed = c.pages_fed();
    let s = c.page_size();
    let rest = fed.subrange(k - 1, fed.len() as int);
    assert(server(k) == fed[k - 1]);
    assert(rest.first() == fed[k - 1]);
    if k < fed.len() {
        assert(next_page_spec(k, fed[k - 1].len(), s) == Some((k + 1) as nat));
        lemma_fed_pages_from(c, server, k + 1);
        assert(rest.drop_first() =~= fed.subrange(k as int, fed.len() as int));
    } else {
        assert(rest.drop_first() =~= Seq::<Seq<T>>::empty());
        assert(rest.drop_first().flatten() =~= Seq::<T>::empty());
    }
}

/// A cursor run to its end against a server that holds `all` in pages of its
/// page size hands out the first `min(|all|, 10 * page size)` items of `all`,
/// in order, after `ceil(min(|all|, 10 * page size) / page size)` fetches;
/// the conditions are those of `lemma_paginate_chunked`.
pub proof fn lemma_cursor_over_chunked<Q, T>(c: Paginator<Q, T>, all: Seq<T>)
    requires
        c.wf(),
        c.is_exhausted(),
        c.pending().len() == 0,
        c.page_size() > 0,
        all.len() % c.page_size() != 0 || all.len() >= MAX_PAGES * c.page_size(),
        forall|i: int|
            0 <= i < c.pages_fed().len() ==> #[trigger] c.pages_fed()[i] == chunked(all, c.page_size())(
                (i + 1) as nat,
            ),
    ensures
        c.handed_out() == all.take(min_int(all.len() as int, MAX_PAGES * c.page_size())),
        c.pages_fed().len() == div_ceil(min_int(all.len() as int, MAX_PAGES * c.page_size()), c.page_size() as int),
{
    lemma_cursor_follows_server(c, chunked(all, c.page_size()));
    lemma_paginate_chunked(all, c.page_size());
}

} // verus!
