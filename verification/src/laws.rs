use vstd::prelude::*;
use crate::model::BackingFile;
use crate::model::CacheModel;
use crate::model::bumped;
use crate::geometry::lemma_next_page;
use crate::geometry::lemma_page_inside;
use crate::geometry::lemma_pages_apart;
use crate::geometry::lemma_whole_pages;
use crate::receipt::WriteResponse;
use crate::value::Value;

verus! {

/// A fresh cache is well formed, and the handle of an empty file stands where
/// its cursor points.
pub proof fn fresh_cache_is_well_formed(page_size: nat, capacity: nat)
    requires
        page_size > 0,
        capacity % page_size == 0,
        capacity > page_size,
        capacity <= usize::MAX,
    ensures
        CacheModel::fresh(page_size, capacity).wf(),
        CacheModel::fresh(page_size, capacity).page_count() * page_size == capacity,
        BackingFile::empty().follows(CacheModel::fresh(page_size, capacity)),
        forall|i: int|
            0 <= i < CacheModel::fresh(page_size, capacity).page_count()
                ==> CacheModel::fresh(page_size, capacity).versions[i] == 0,
{
    lemma_whole_pages(page_size, capacity);
}

/// A write keeps the cache well formed, and the cursor moves on by the
/// value's length inside one page.
pub proof fn write_keeps_well_formed(cache: CacheModel, len: nat)
    requires
        cache.wf(),
        len <= cache.page_size,
    ensures
        cache.written(len).wf(),
        cache.written(len).page_size == cache.page_size,
        cache.written(len).page_count() == cache.page_count(),
        cache.written(len).offset == cache.moved(len).offset + len,
{
    lemma_next_page(cache);
}

/// No receipt straddles a page boundary: the receipt of a write names a page
/// of the cache and a range that ends inside that page, it starts where the
/// cursor stood after making room, and it is current right after the write.
pub proof fn receipt_stays_inside_page(cache: CacheModel, len: nat)
    requires
        cache.wf(),
        len <= cache.page_size,
    ensures
        cache.written(len).admits(cache.issued(len)),
        cache.issued(len).page_offset + cache.issued(len).length <= cache.page_size,
        cache.issued(len).length == len,
        cache.written(len).location(cache.issued(len)) == cache.moved(len).cursor_location(),
        cache.written(len).current(cache.issued(len)),
        cache.written(len).covers(cache.issued(len)),
{
    lemma_next_page(cache);
    lemma_page_inside(cache, cache.moved(len).page);
}

/// The write handle follows the cursor: if it stands where the cursor points
/// before a write, it does so after the write's step was carried out.
pub proof fn handle_follows_cursor(cache: CacheModel, file: BackingFile, data: Seq<u8>)
    requires
        cache.wf(),
        data.len() <= cache.page_size,
        file.follows(cache),
    ensures
        file.performed(cache.seek_target(data.len()), data).follows(cache.written(data.len())),
{
    lemma_next_page(cache);
    lemma_page_inside(cache, cache.next_page());
}

/// After a write's step was carried out, the file holds the written bytes at
/// the receipt's location.
pub proof fn write_lands_at_receipt(cache: CacheModel, file: BackingFile, data: Seq<u8>)
    requires
        cache.wf(),
        data.len() <= cache.page_size,
        file.follows(cache),
    ensures
        file.performed(cache.seek_target(data.len()), data).read_exact(
            cache.written(data.len()).location(cache.issued(data.len())),
            cache.issued(data.len()).length as nat,
        ) == Some(data),
{
    let len = data.len();
    lemma_next_page(cache);
    lemma_page_inside(cache, cache.next_page());
    receipt_stays_inside_page(cache, len);
    let after = file.performed(cache.seek_target(len), data);
    let at = cache.moved(len).cursor_location();
    assert(after.bytes.len() >= at + len);
    assert(after.bytes.subrange(at as int, (at + len) as int) =~= data);
}

/// Round trip without eviction: a value whose encoding fits in a page, once
/// written and its step carried out, is what redeeming its receipt yields
/// from the bytes read at the receipt's location.
pub proof fn round_trip_without_eviction<V: Value>(cache: CacheModel, file: BackingFile, value: V)
    requires
        cache.wf(),
        value.encoding().len() <= cache.page_size,
        file.follows(cache),
    ensures
        ({
            let len = value.encoding().len();
            let receipt = cache.issued(len);
            let after = cache.written(len);
            let stored = file.performed(cache.seek_target(len), value.encoding());
            &&& after.admits(receipt)
            &&& stored.read_exact(after.location(receipt), receipt.length as nat) is Some
            &&& after.redeemed::<V>(
                receipt,
                stored.read_exact(after.location(receipt), receipt.length as nat).unwrap(),
            ) == Some(value)
        }),
{
    let len = value.encoding().len();
    receipt_stays_inside_page(cache, len);
    write_lands_at_receipt(cache, file, value.encoding());
    value.round_trip();
}

/// A later write either reuses a receipt's page, which changes the page's
/// version, or leaves the receipt's bytes as they were: if the version of the
/// receipt's page is the same after the write, the receipt's range still lies
/// behind the cursor and the file holds the same bytes there.
pub proof fn later_write_spares_unevicted_values(
    cache: CacheModel,
    file: BackingFile,
    data: Seq<u8>,
    receipt: WriteResponse,
)
    requires
        cache.wf(),
        data.len() <= cache.page_size,
        file.follows(cache),
        cache.covers(receipt),
    ensures
        ({
            let after = cache.written(data.len());
            let stored = file.performed(cache.seek_target(data.len()), data);
            let at = cache.location(receipt);
            let len = receipt.length as nat;
            after.versions[receipt.page_id as int] == cache.versions[receipt.page_id as int] ==> ({
                &&& after.covers(receipt)
                &&& after.location(receipt) == at
                &&& file.read_exact(at, len) is Some ==> stored.read_exact(at, len)
                    == file.read_exact(at, len)
            })
        }),
{
    let len = data.len();
    let after = cache.written(len);
    let stored = file.performed(cache.seek_target(len), data);
    let at = cache.location(receipt);
    let rlen = receipt.length as nat;
    let page = receipt.page_id as nat;
    let size = cache.page_size;
    lemma_next_page(cache);
    lemma_page_inside(cache, cache.next_page());
    if after.versions[receipt.page_id as int] == cache.versions[receipt.page_id as int] {
        let target = cache.moved(len).page;
        let from = cache.moved(len).cursor_location();
        assert(stored.position == from + len);
        if page != target {
            if page < target {
                lemma_pages_apart(page, target, size);
            } else {
                lemma_pages_apart(target, page, size);
            }
        } else {
            assert(!cache.must_advance(len));
        }
        assert(at + rlen <= from || from + len <= at);
        if file.read_exact(at, rlen) is Some {
            assert(stored.bytes.len() >= file.bytes.len());
            assert(stored.bytes.subrange(at as int, (at + rlen) as int) =~= file.bytes.subrange(
                at as int,
                (at + rlen) as int,
            ));
        }
    }
}

/// Staleness detection: a write that takes the cursor into a receipt's page
/// changes that page's version, so a receipt that was current is redeemed as a
/// miss afterwards, whatever bytes are read.
pub proof fn wrap_invalidates_receipt<V: Value>(
    cache: CacheModel,
    len: nat,
    receipt: WriteResponse,
    bytes: Seq<u8>,
)
    requires
        cache.wf(),
        len <= cache.page_size,
        cache.admits(receipt),
        cache.current(receipt),
        cache.must_advance(len),
        receipt.page_id == cache.next_page(),
    ensures
        !cache.written(len).current(receipt),
        cache.written(len).redeemed::<V>(receipt, bytes) is None,
        receipt.version < u64::MAX ==> cache.written(len).stale(receipt),
{
    lemma_next_page(cache);
}

/// A stale receipt is redeemed as a miss, whatever bytes are read.
pub proof fn stale_receipt_misses<V: Value>(
    cache: CacheModel,
    receipt: WriteResponse,
    bytes: Seq<u8>,
)
    requires
        cache.stale(receipt),
    ensures
        cache.redeemed::<V>(receipt, bytes) is None,
{
}

/// One write moves the cursor to the next page in cyclic order or leaves it
/// in its page, and changes no version but, if it moves, that of the page it
/// enters, which goes up by one unless it was the largest counter.
pub proof fn write_moves_one_page_at_most(cache: CacheModel, len: nat)
    requires
        cache.wf(),
        len <= cache.page_size,
    ensures
        cache.written(len).page == if cache.must_advance(len) {
            cache.next_page()
        } else {
            cache.page
        },
        cache.written(len).versions.len() == cache.versions.len(),
        forall|i: int|
            0 <= i < cache.versions.len() ==> #[trigger] cache.written(len).versions[i] == if i
                == cache.next_page() && cache.must_advance(len) {
                bumped(cache.versions[i])
            } else {
                cache.versions[i]
            },
{
    lemma_next_page(cache);
}

/// A run of writes that each fit in a page keeps the cache well formed.
pub proof fn run_keeps_well_formed(cache: CacheModel, datas: Seq<Seq<u8>>)
    requires
        cache.wf(),
        forall|k: int| 0 <= k < datas.len() ==> datas[k].len() <= cache.page_size,
    ensures
        cache.written_all(datas).wf(),
        cache.written_all(datas).page_size == cache.page_size,
        cache.written_all(datas).page_count() == cache.page_count(),
        cache.advances(datas) <= datas.len(),
    decreases datas.len(),
{
    if datas.len() > 0 {
        run_keeps_well_formed(cache, datas.drop_last());
        write_keeps_well_formed(cache.written_all(datas.drop_last()), datas.last().len());
    }
}

/// Positional FIFO: after any run of writes the cursor's page is the page it
/// started in plus the number of writes that opened a page, counted
/// cyclically. From a fresh cache the pages are therefore taken in the order
/// 0, 1, ..., N-1, 0, 1, ..., whatever the sizes of the values.
pub proof fn cursor_takes_pages_in_cyclic_order(cache: CacheModel, datas: Seq<Seq<u8>>)
    requires
        cache.wf(),
        forall|k: int| 0 <= k < datas.len() ==> datas[k].len() <= cache.page_size,
    ensures
        cache.written_all(datas).page == (cache.page + cache.advances(datas)) % cache.page_count(),
    decreases datas.len(),
{
    let n = cache.page_count() as int;
    if datas.len() == 0 {
        vstd::arithmetic::div_mod::lemma_small_mod(cache.page, cache.page_count());
    } else {
        let head = datas.drop_last();
        let before = cache.written_all(head);
        cursor_takes_pages_in_cyclic_order(cache, head);
        run_keeps_well_formed(cache, head);
        write_moves_one_page_at_most(before, datas.last().len());
        if before.must_advance(datas.last().len()) {
            let k = (cache.page + cache.advances(head)) as int;
            vstd::arithmetic::div_mod::lemma_add_mod_noop(k, 1, n);
            vstd::arithmetic::div_mod::lemma_small_mod(1, n as nat);
            assert(before.page == k % n);
            assert(before.next_page() == (k % n + 1) % n);
            assert(((k % n) + (1int % n)) % n == (k + 1) % n);
        }
    }
}

/// Version monotonicity: over a run of writes no page's version goes down,
/// and it goes up by at most the number of writes that opened a page,
/// provided the counter has that much room left below its largest value.
pub proof fn versions_never_decrease(cache: CacheModel, datas: Seq<Seq<u8>>, page: nat)
    requires
        cache.wf(),
        forall|k: int| 0 <= k < datas.len() ==> datas[k].len() <= cache.page_size,
        page < cache.page_count(),
        cache.versions[page as int] + cache.advances(datas) <= u64::MAX,
    ensures
        cache.versions[page as int] <= cache.written_all(datas).versions[page as int],
        cache.written_all(datas).versions[page as int] <= cache.versions[page as int]
            + cache.advances(datas),
    decreases datas.len(),
{
    if datas.len() > 0 {
        let head = datas.drop_last();
        versions_never_decrease(cache, head, page);
        run_keeps_well_formed(cache, head);
        write_moves_one_page_at_most(cache.written_all(head), datas.last().len());
    }
}

/// A stale receipt stays stale: once a page's version has passed a receipt's,
/// every later redemption is a miss, for as long as the page's counter has
/// room left below its largest value.
pub proof fn stale_receipt_stays_stale<V: Value>(
    cache: CacheModel,
    datas: Seq<Seq<u8>>,
    receipt: WriteResponse,
    bytes: Seq<u8>,
)
    requires
        cache.wf(),
        forall|k: int| 0 <= k < datas.len() ==> datas[k].len() <= cache.page_size,
        cache.admits(receipt),
        cache.stale(receipt),
        cache.versions[receipt.page_id as int] + cache.advances(datas) <= u64::MAX,
    ensures
        cache.written_all(datas).stale(receipt),
        cache.written_all(datas).redeemed::<V>(receipt, bytes) is None,
{
    versions_never_decrease(cache, datas, receipt.page_id as nat);
}

/// Over a run of writes the handle keeps following the cursor, and a receipt
/// whose bytes the file holds keeps them for as long as it is current.
proof fn lemma_run_spares_current_values(
    cache: CacheModel,
    file: BackingFile,
    datas: Seq<Seq<u8>>,
    receipt: WriteResponse,
    bytes: Seq<u8>,
)
    requires
        cache.wf(),
        forall|k: int| 0 <= k < datas.len() ==> datas[k].len() <= cache.page_size,
        file.follows(cache),
        cache.covers(receipt),
        cache.current(receipt),
        file.read_exact(cache.location(receipt), receipt.length as nat) == Some(bytes),
        cache.versions[receipt.page_id as int] + cache.advances(datas) <= u64::MAX,
    ensures
        file.performed_all(cache, datas).follows(cache.written_all(datas)),
        cache.written_all(datas).location(receipt) == cache.location(receipt),
        cache.written_all(datas).admits(receipt),
        !cache.written_all(datas).current(receipt) ==> cache.written_all(datas).stale(receipt),
        cache.written_all(datas).current(receipt) ==> file.performed_all(cache, datas).read_exact(
            cache.location(receipt),
            receipt.length as nat,
        ) == Some(bytes) && cache.written_all(datas).covers(receipt),
    decreases datas.len(),
{
    if datas.len() > 0 {
        let head = datas.drop_last();
        let before = cache.written_all(head);
        let held = file.performed_all(cache, head);
        lemma_run_spares_current_values(cache, file, head, receipt, bytes);
        run_keeps_well_formed(cache, head);
        versions_never_decrease(cache, head, receipt.page_id as nat);
        write_moves_one_page_at_most(before, datas.last().len());
        write_keeps_well_formed(before, datas.last().len());
        handle_follows_cursor(before, held, datas.last());
        if before.current(receipt) {
            later_write_spares_unevicted_values(before, held, datas.last(), receipt);
        }
    }
}

/// The handle follows the cursor over any run of writes.
pub proof fn handle_follows_cursor_over_run(
    cache: CacheModel,
    file: BackingFile,
    datas: Seq<Seq<u8>>,
)
    requires
        cache.wf(),
        forall|k: int| 0 <= k < datas.len() ==> datas[k].len() <= cache.page_size,
        file.follows(cache),
    ensures
        file.performed_all(cache, datas).follows(cache.written_all(datas)),
    decreases datas.len(),
{
    if datas.len() > 0 {
        let head = datas.drop_last();
        handle_follows_cursor_over_run(cache, file, head);
        run_keeps_well_formed(cache, head);
        handle_follows_cursor(cache.written_all(head), file.performed_all(cache, head), datas.last());
    }
}

/// A value is found again until its page is reused. After a value was
/// written and any run of further writes followed, its receipt is either
/// still current, and then redeeming it from the bytes at its location
/// yields the value, or it is stale, and then redeeming it is a miss. This
/// holds for as long as the page's counter has room left below its largest
/// value.
pub proof fn value_survives_until_eviction<V: Value>(
    cache: CacheModel,
    file: BackingFile,
    value: V,
    later: Seq<Seq<u8>>,
)
    requires
        cache.wf(),
        value.encoding().len() <= cache.page_size,
        file.follows(cache),
        forall|k: int| 0 <= k < later.len() ==> later[k].len() <= cache.page_size,
        cache.issued(value.encoding().len()).version + cache.written(
            value.encoding().len(),
        ).advances(later) <= u64::MAX,
    ensures
        ({
            let len = value.encoding().len();
            let receipt = cache.issued(len);
            let first = cache.written(len);
            let stored = file.performed(cache.seek_target(len), value.encoding());
            let last = first.written_all(later);
            let kept = stored.performed_all(first, later);
            let found = kept.read_exact(last.location(receipt), receipt.length as nat);
            &&& last.admits(receipt)
            &&& last.current(receipt) ==> found is Some && last.redeemed::<V>(
                receipt,
                found.unwrap(),
            ) == Some(value)
            &&& !last.current(receipt) ==> last.stale(receipt) && forall|bytes: Seq<u8>|
                last.redeemed::<V>(receipt, bytes) is None
        }),
{
    let len = value.encoding().len();
    let receipt = cache.issued(len);
    let first = cache.written(len);
    let stored = file.performed(cache.seek_target(len), value.encoding());
    write_keeps_well_formed(cache, len);
    receipt_stays_inside_page(cache, len);
    handle_follows_cursor(cache, file, value.encoding());
    write_lands_at_receipt(cache, file, value.encoding());
    value.round_trip();
    lemma_run_spares_current_values(first, stored, later, receipt, value.encoding());
}

} // verus!
