//! Gathering the items of several result pages into one bounded list.

use vstd::prelude::*;

verus! {

/// The items of all pages, page after page, each page in its own order.
pub open spec fn concat_pages<T>(pages: Seq<Vec<T>>) -> Seq<T> {
    pages.map_values(|p: Vec<T>| p@).flatten()
}

/// The first `limit` items of `s`, or all of them when there are fewer.
pub open spec fn at_most<T>(s: Seq<T>, limit: int) -> Seq<T> {
    if s.len() <= limit {
        s
    } else {
        s.take(limit)
    }
}

/// Concatenates the pages in order and keeps at most `limit` items.
pub fn concat_truncate<T>(pages: Vec<Vec<T>>, limit: usize) -> (items: Vec<T>)
    ensures
        items@ == at_most(concat_pages(pages@), limit as int),
{
    let ghost whole = concat_pages(pages@);
    let mut pages = pages;
    let mut items: Vec<T> = Vec::new();
    assert(items@ + concat_pages(pages@) =~= whole);
    while pages.len() > 0
        invariant
            items@ + concat_pages(pages@) == whole,
        decreases pages@.len(),
    {
        let ghost before = pages@;
        let mut page = pages.remove(0);
        proof {
            let vs = before.map_values(|p: Vec<T>| p@);
            assert(vs.drop_first() =~= pages@.map_values(|p: Vec<T>| p@));
            assert(vs.first() == page@);
            assert(concat_pages(before) == vs.first() + vs.drop_first().flatten());
        }
        items.append(&mut page);
        assert(items@ + concat_pages(pages@) =~= whole);
    }
    assert(pages@.map_values(|p: Vec<T>| p@) =~= Seq::<Seq<T>>::empty());
    assert(items@ =~= whole);
    items.truncate(limit);
    items
}


/// How many pages of `per_page` items hold `limit` items: `limit / per_page`
/// rounded up.
pub open spec fn pages_needed(limit: nat, per_page: nat) -> nat
    recommends
        per_page > 0,
{
    ((limit + per_page - 1) / (per_page as int)) as nat
}

/// The pages requested are just enough: together they can hold `limit`
/// items, and one page fewer could not.
pub proof fn law_pages_needed_cover(limit: nat, per_page: nat)
    requires
        per_page > 0,
    ensures
        pages_needed(limit, per_page) * per_page >= limit,
        pages_needed(limit, per_page) == 0 || (pages_needed(limit, per_page) - 1) * per_page < limit,
{
    let n = limit + per_page - 1;
    let q = n / (per_page as int);
    let r = n % (per_page as int);
    assert(n == q * per_page + r && 0 <= r < per_page) by (nonlinear_arith)
        requires
            per_page > 0,
            q == n / (per_page as int),
            r == n % (per_page as int),
    ;
    assert(q * per_page >= limit) by (nonlinear_arith)
        requires
            n == q * per_page + r,
            0 <= r < per_page,
            n == limit + per_page - 1,
    ;
    assert(q == 0 || (q - 1) * per_page < limit) by (nonlinear_arith)
        requires
            n == q * per_page + r,
            0 <= r,
            n == limit + per_page - 1,
    ;
}

/// `limit / per_page` rounded up, computed without overflow.
pub fn page_count(limit: u64, per_page: u64) -> (count: u64)
    requires
        per_page > 0,
    ensures
        count == pages_needed(limit as nat, per_page as nat),
{
    let q = limit / per_page;
    let r = limit % per_page;
    proof {
        let p = per_page as int;
        let l = limit as int;
        assert(l == q * p + r && 0 <= r < p) by (nonlinear_arith)
            requires
                p > 0,
                q == l / p,
                r == l % p,
        ;
        if r == 0 {
            assert((l + p - 1) / p == q) by (nonlinear_arith)
                requires
                    l == q * p,
                    p > 0,
                    q >= 0,
            ;
        } else {
            assert((l + p - 1) / p == q + 1) by (nonlinear_arith)
                requires
                    l == q * p + r,
                    0 < r < p,
                    q >= 0,
            ;
            assert(q < 0xffff_ffff_ffff_ffff) by (nonlinear_arith)
                requires
                    l == q * p + r,
                    0 < r < p,
                    q >= 0,
                    l <= 0xffff_ffff_ffff_ffff,
            ;
        }
    }
    if r == 0 {
        q
    } else {
        q + 1
    }
}


/// Concatenating `n` pages of `per_page` items each gives `n * per_page`
/// items.
pub proof fn lemma_concat_full_pages<T>(pages: Seq<Vec<T>>, per_page: nat)
    requires
        forall|i: int| 0 <= i < pages.len() ==> (#[trigger] pages[i])@.len() == per_page,
    ensures
        concat_pages(pages).len() == pages.len() * per_page,
    decreases pages.len(),
{
    if pages.len() > 0 {
        let vs = pages.map_values(|p: Vec<T>| p@);
        let rest = pages.drop_first();
        assert(vs.drop_first() =~= rest.map_values(|p: Vec<T>| p@));
        assert(forall|i: int| 0 <= i < rest.len() ==> rest[i] == pages[i + 1]);
        lemma_concat_full_pages(rest, per_page);
        assert(concat_pages(pages) == vs.first() + vs.drop_first().flatten());
        assert(vs.first() == pages[0]@);
        assert(pages.len() * per_page == per_page + rest.len() * per_page) by (nonlinear_arith)
            requires
                rest.len() == pages.len() - 1,
        ;
    } else {
        assert(pages.map_values(|p: Vec<T>| p@) =~= Seq::<Seq<T>>::empty());
        assert(pages.len() * per_page == 0) by (nonlinear_arith)
            requires
                pages.len() == 0,
        ;
    }
}

/// When every requested page comes back full, the collected list holds
/// exactly `limit` items.
pub proof fn law_full_pages_give_limit<T>(pages: Seq<Vec<T>>, limit: nat, per_page: nat)
    requires
        per_page > 0,
        pages.len() == pages_needed(limit, per_page),
        forall|i: int| 0 <= i < pages.len() ==> (#[trigger] pages[i])@.len() == per_page,
    ensures
        at_most(concat_pages(pages), limit as int).len() == limit,
{
    law_pages_needed_cover(limit, per_page);
    lemma_concat_full_pages(pages, per_page);
}

} // verus!
