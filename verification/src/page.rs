//! Pages: fixed-size windows over an ordered list of matches, with the total
//! number of matches.

use vstd::prelude::*;

verus! {

/// Where page `page` of size `size` starts in a list of `len` matches.
pub open spec fn page_start(len: int, page: int, size: int) -> int {
    if page * size < len {
        page * size
    } else {
        len
    }
}

/// Where page `page` of size `size` ends in a list of `len` matches.
pub open spec fn page_end(len: int, page: int, size: int) -> int {
    if page_start(len, page, size) + size < len {
        page_start(len, page, size) + size
    } else {
        len
    }
}

/// Page `page` (counted from zero) of `all`, cut into pages of `size` items.
/// A page before the first or after the last is empty.
pub open spec fn page_window<T>(all: Seq<T>, page: int, size: int) -> Seq<T> {
    if page < 0 || size <= 0 {
        Seq::empty()
    } else {
        let len = all.len() as int;
        all.subrange(page_start(len, page, size), page_end(len, page, size))
    }
}

/// A count as the 32-bit total that a listing reports: the count itself, or the
/// largest such number where the count does not fit.
pub open spec fn reported_total(n: int) -> i32 {
    if n <= i32::MAX {
        n as i32
    } else {
        i32::MAX
    }
}

/// The first `pages` pages of `all`, one after the other.
pub open spec fn pages_joined<T>(all: Seq<T>, pages: int, size: int) -> Seq<T>
    decreases pages,
{
    if pages <= 0 {
        Seq::empty()
    } else {
        pages_joined(all, pages - 1, size) + page_window(all, pages - 1, size)
    }
}

/// The lengths of the first `pages` pages of `all`, added up.
pub open spec fn pages_total<T>(all: Seq<T>, pages: int, size: int) -> int
    decreases pages,
{
    if pages <= 0 {
        0
    } else {
        pages_total(all, pages - 1, size) + page_window(all, pages - 1, size).len()
    }
}

/// No page holds more than `size` items.
pub proof fn lemma_page_fits<T>(all: Seq<T>, page: int, size: int)
    requires
        size > 0,
    ensures
        page_window(all, page, size).len() <= size,
        page_window(all, page, size).len() <= all.len(),
{
}

/// The first `pages` pages together are the first `pages * size` matches.
pub proof fn lemma_pages_are_prefix<T>(all: Seq<T>, pages: int, size: int)
    requires
        size > 0,
        pages >= 0,
    ensures
        pages_joined(all, pages, size) == all.subrange(
            0,
            page_start(all.len() as int, pages, size),
        ),
        pages_total(all, pages, size) == page_start(all.len() as int, pages, size),
    decreases pages,
{
    let len = all.len() as int;
    if pages == 0 {
        assert(pages_joined(all, pages, size) =~= all.subrange(0, 0));
    } else {
        lemma_pages_are_prefix(all, pages - 1, size);
        assert((pages - 1) * size + size == pages * size) by (nonlinear_arith);
        assert(page_end(len, pages - 1, size) == page_start(len, pages, size));
        assert((pages - 1) * size >= 0) by (nonlinear_arith)
            requires
                pages >= 1,
                size > 0,
        ;
        assert(pages_joined(all, pages, size) =~= all.subrange(0, page_start(len, pages, size)));
    }
}

/// Once the pages reach the end of the matches, their lengths add up to the
/// number of matches and, joined, they are the matches. Every later page is
/// empty.
pub proof fn lemma_pages_cover<T>(all: Seq<T>, pages: int, size: int)
    requires
        size > 0,
        pages >= 0,
        pages * size >= all.len(),
    ensures
        pages_total(all, pages, size) == all.len(),
        pages_joined(all, pages, size) == all,
        forall|p: int| p >= pages ==> (#[trigger] page_window(all, p, size)).len() == 0,
{
    lemma_pages_are_prefix(all, pages, size);
    assert(all.subrange(0, all.len() as int) =~= all);
    assert forall|p: int| p >= pages implies (#[trigger] page_window(all, p, size)).len() == 0 by {
        assert(p * size >= pages * size) by (nonlinear_arith)
            requires
                p >= pages,
                size > 0,
        ;
    }
}

/// Whether the match with the number `index` (counted from zero) belongs to
/// page `page` of size `size`.
pub open spec fn in_page(index: int, page: int, size: int) -> bool {
    page >= 0 && page * size <= index < page * size + size
}

/// Adding one match at the end adds it to the page that it belongs to and
/// leaves the other pages as they were.
pub proof fn lemma_page_push<T>(all: Seq<T>, item: T, page: int, size: int)
    requires
        size > 0,
    ensures
        page_window(all.push(item), page, size) == if in_page(all.len() as int, page, size) {
            page_window(all, page, size).push(item)
        } else {
            page_window(all, page, size)
        },
{
    if page >= 0 {
        assert(page * size >= 0) by (nonlinear_arith)
            requires
                page >= 0,
                size > 0,
        ;
        if in_page(all.len() as int, page, size) {
            assert(page_window(all.push(item), page, size) =~= page_window(all, page, size).push(
                item,
            ));
        } else {
            assert(page_window(all.push(item), page, size) =~= page_window(all, page, size));
        }
    }
}

/// What a listing returns: of the records of `all` that `keep` accepts, in the
/// order of `all`, those of page `page`, each as `show` presents it.
pub open spec fn listing<A, B>(
    all: Seq<A>,
    keep: spec_fn(A) -> bool,
    show: spec_fn(A) -> B,
    page: int,
    size: int,
) -> Seq<B> {
    page_window(all.filter(keep), page, size).map_values(show)
}

/// The lengths of the first `pages` pages of a listing, added up.
pub open spec fn listed_count<A, B>(
    all: Seq<A>,
    keep: spec_fn(A) -> bool,
    show: spec_fn(A) -> B,
    pages: int,
    size: int,
) -> int
    decreases pages,
{
    if pages <= 0 {
        0
    } else {
        listed_count(all, keep, show, pages - 1, size) + listing(
            all,
            keep,
            show,
            pages - 1,
            size,
        ).len()
    }
}

/// No page of a listing holds more than `size` items, or more than there are
/// matches.
pub proof fn lemma_listing_fits<A, B>(
    all: Seq<A>,
    keep: spec_fn(A) -> bool,
    show: spec_fn(A) -> B,
    page: int,
    size: int,
)
    requires
        size > 0,
    ensures
        listing(all, keep, show, page, size).len() <= size,
        listing(all, keep, show, page, size).len() <= all.filter(keep).len(),
{
    lemma_page_fits(all.filter(keep), page, size);
}

/// Pagination total: no page of a listing holds more than `size` items; once
/// the pages reach the end of the matches, every further page is empty; and
/// the lengths of the pages up to there add up to the number of matches,
/// which is the total that the listing reports as long as it fits in 32 bits.
pub proof fn lemma_pagination_total<A, B>(
    all: Seq<A>,
    keep: spec_fn(A) -> bool,
    show: spec_fn(A) -> B,
    pages: int,
    size: int,
)
    requires
        size > 0,
        pages >= 0,
        pages * size >= all.filter(keep).len(),
    ensures
        forall|p: int| (#[trigger] listing(all, keep, show, p, size)).len() <= size,
        forall|p: int| p >= pages ==> (#[trigger] listing(all, keep, show, p, size)).len() == 0,
        listed_count(all, keep, show, pages, size) == all.filter(keep).len(),
        all.filter(keep).len() <= i32::MAX ==> listed_count(all, keep, show, pages, size)
            == reported_total(all.filter(keep).len() as int),
{
    let matches = all.filter(keep);
    lemma_pages_cover(matches, pages, size);
    assert forall|p: int| (#[trigger] listing(all, keep, show, p, size)).len() <= size by {
        lemma_listing_fits(all, keep, show, p, size);
    }
    assert forall|p: int| p >= pages implies (#[trigger] listing(all, keep, show, p, size)).len()
        == 0 by {
        assert(page_window(matches, p, size).len() == 0);
    }
    lemma_listed_count(all, keep, show, pages, size);
}

/// The pages of a listing are as long as the pages of the matches.
proof fn lemma_listed_count<A, B>(
    all: Seq<A>,
    keep: spec_fn(A) -> bool,
    show: spec_fn(A) -> B,
    pages: int,
    size: int,
)
    ensures
        listed_count(all, keep, show, pages, size) == pages_total(all.filter(keep), pages, size),
    decreases pages,
{
    if pages > 0 {
        lemma_listed_count(all, keep, show, pages - 1, size);
    }
}

/// How the matches and the listing grow when one more record is read.
pub proof fn lemma_listing_step<A, B>(
    all: Seq<A>,
    keep: spec_fn(A) -> bool,
    show: spec_fn(A) -> B,
    i: int,
    page: int,
    size: int,
)
    requires
        0 <= i < all.len(),
        size > 0,
    ensures
        all.take(i + 1).filter(keep) == if keep(all[i]) {
            all.take(i).filter(keep).push(all[i])
        } else {
            all.take(i).filter(keep)
        },
        all.take(i).filter(keep).len() <= i,
        listing(all.take(i + 1), keep, show, page, size) == if keep(all[i]) && in_page(
            all.take(i).filter(keep).len() as int,
            page,
            size,
        ) {
            listing(all.take(i), keep, show, page, size).push(show(all[i]))
        } else {
            listing(all.take(i), keep, show, page, size)
        },
{
    let before = all.take(i).filter(keep);
    all.lemma_take_succ_push(i);
    all.take(i).lemma_filter_push(all[i], keep);
    all.take(i).lemma_filter_len(keep);
    if keep(all[i]) {
        lemma_page_push(before, all[i], page, size);
        if in_page(before.len() as int, page, size) {
            page_window(before, page, size).lemma_push_map_commute(show, all[i]);
        }
    }
}

/// Before any record is read there are no matches and the listing is empty.
pub proof fn lemma_listing_start<A, B>(
    all: Seq<A>,
    keep: spec_fn(A) -> bool,
    show: spec_fn(A) -> B,
    page: int,
    size: int,
)
    ensures
        all.take(0).filter(keep).len() == 0,
        listing(all.take(0), keep, show, page, size) == Seq::<B>::empty(),
{
    all.take(0).lemma_filter_len(keep);
    assert(listing(all.take(0), keep, show, page, size) =~= Seq::<B>::empty());
}

/// What an unpaged listing returns: the records of `all` that `keep` accepts,
/// in the order of `all`, each as `show` presents it.
pub open spec fn selection<A, B>(
    all: Seq<A>,
    keep: spec_fn(A) -> bool,
    show: spec_fn(A) -> B,
) -> Seq<B> {
    all.filter(keep).map_values(show)
}

/// How the selection grows when one more record is read.
pub proof fn lemma_selection_step<A, B>(
    all: Seq<A>,
    keep: spec_fn(A) -> bool,
    show: spec_fn(A) -> B,
    i: int,
)
    requires
        0 <= i < all.len(),
    ensures
        selection(all.take(i + 1), keep, show) == if keep(all[i]) {
            selection(all.take(i), keep, show).push(show(all[i]))
        } else {
            selection(all.take(i), keep, show)
        },
{
    all.lemma_take_succ_push(i);
    all.take(i).lemma_filter_push(all[i], keep);
    if keep(all[i]) {
        all.take(i).filter(keep).lemma_push_map_commute(show, all[i]);
    }
}

/// Before any record is read the selection is empty.
pub proof fn lemma_selection_start<A, B>(
    all: Seq<A>,
    keep: spec_fn(A) -> bool,
    show: spec_fn(A) -> B,
)
    ensures
        selection(all.take(0), keep, show) == Seq::<B>::empty(),
{
    all.take(0).lemma_filter_len(keep);
    assert(selection(all.take(0), keep, show) =~= Seq::<B>::empty());
}

/// How the matches grow when one more record is read.
pub proof fn lemma_filter_step<A>(all: Seq<A>, keep: spec_fn(A) -> bool, i: int)
    requires
        0 <= i < all.len(),
    ensures
        all.take(i + 1).filter(keep) == if keep(all[i]) {
            all.take(i).filter(keep).push(all[i])
        } else {
            all.take(i).filter(keep)
        },
        all.take(i).filter(keep).len() <= i,
        all.take(0).filter(keep) == Seq::<A>::empty(),
{
    all.lemma_take_succ_push(i);
    all.take(i).lemma_filter_push(all[i], keep);
    all.take(i).lemma_filter_len(keep);
    all.take(0).lemma_filter_len(keep);
    assert(all.take(0).filter(keep) =~= Seq::<A>::empty());
}

/// Where page `page` of `len` matches starts and ends.
pub fn page_bounds(len: usize, page: i32, size: u32) -> (r: (usize, usize))
    ensures
        r.0 <= r.1 <= len,
        page >= 0 ==> r.0 == page_start(len as int, page as int, size as int) && r.1 == page_end(
            len as int,
            page as int,
            size as int,
        ),
        page < 0 ==> r.0 == 0 && r.1 == 0,
{
    if page < 0 {
        return (0, 0);
    }
    assert(0 <= (page as int) * (size as int) < 0x8000_0000 * 0x1_0000_0000) by (nonlinear_arith)
        requires
            0 <= page < 0x8000_0000,
            0 <= size < 0x1_0000_0000,
    ;
    let first: u128 = (page as u128) * (size as u128);
    let start: usize = if first < len as u128 {
        first as usize
    } else {
        len
    };
    let end: usize = if (size as usize) < len - start {
        start + size as usize
    } else {
        len
    };
    (start, end)
}

/// Whether the match with the number `index` belongs to page `page`.
pub fn belongs_to_page(index: usize, page: i32, size: u32) -> (r: bool)
    ensures
        r == in_page(index as int, page as int, size as int),
{
    if page < 0 {
        return false;
    }
    assert(0 <= (page as int) * (size as int) < 0x8000_0000 * 0x1_0000_0000) by (nonlinear_arith)
        requires
            0 <= page < 0x8000_0000,
            0 <= size < 0x1_0000_0000,
    ;
    let first: u128 = (page as u128) * (size as u128);
    let index: u128 = index as u128;
    first <= index && index < first + (size as u128)
}

/// The total that a listing reports for `n` matches.
pub fn total_of(n: usize) -> (r: i32)
    ensures
        r == reported_total(n as int),
{
    if n <= 2147483647 {
        n as i32
    } else {
        2147483647
    }
}

} // verus!
