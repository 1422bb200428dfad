use vstd::prelude::*;
use crate::model::CacheModel;

verus! {

/// Distinct pages do not overlap: the lower one ends before the higher one
/// starts.
pub proof fn lemma_pages_apart(a: nat, b: nat, page_size: nat)
    requires
        a < b,
    ensures
        a * page_size + page_size <= b * page_size,
{
    assert(a * page_size + page_size <= b * page_size) by (nonlinear_arith)
        requires
            a < b,
    ;
}

/// A capacity that is a multiple of the page size, and larger than it, is
/// made up of two whole pages at least.
pub proof fn lemma_whole_pages(page_size: nat, capacity: nat)
    requires
        page_size > 0,
        capacity % page_size == 0,
        capacity > page_size,
    ensures
        capacity / page_size >= 2,
        (capacity / page_size) * page_size == capacity,
{
    vstd::arithmetic::div_mod::lemma_fundamental_div_mod(capacity as int, page_size as int);
    let n = capacity / page_size;
    assert(n * page_size == capacity) by (nonlinear_arith)
        requires
            page_size * n == capacity,
    ;
    assert(n >= 2) by (nonlinear_arith)
        requires
            page_size * n == capacity,
            capacity > page_size,
            page_size > 0,
    ;
}

/// Every page lies inside the region, and the region is addressable.
pub proof fn lemma_page_inside(cache: CacheModel, page: nat)
    requires
        cache.wf(),
        page < cache.page_count(),
    ensures
        page * cache.page_size + cache.page_size <= cache.page_count() * cache.page_size,
        page * cache.page_size + cache.page_size <= usize::MAX,
        page < usize::MAX,
        cache.page_size <= usize::MAX,
{
    lemma_pages_apart(page, cache.page_count(), cache.page_size);
    let size = cache.page_size;
    assert(page <= page * size) by (nonlinear_arith)
        requires
            size >= 1,
    ;
}

/// The page after the cursor's is a page of the cache, and another one than
/// the cursor's.
pub proof fn lemma_next_page(cache: CacheModel)
    requires
        cache.wf(),
    ensures
        cache.next_page() < cache.page_count(),
        cache.next_page() != cache.page,
        cache.next_page() == if cache.page + 1 == cache.page_count() {
            0
        } else {
            cache.page + 1
        },
{
    let n = cache.page_count() as int;
    let p = cache.page as int;
    if p + 1 == n {
        vstd::arithmetic::div_mod::lemma_mod_self_0(n);
    } else {
        vstd::arithmetic::div_mod::lemma_small_mod((p + 1) as nat, n as nat);
    }
}

} // verus!
