//! Page windows over ordered result sets.

use vstd::prelude::*;
use crate::models::ApiError;

verus! {

/// Page requested when none is given.
pub const DEFAULT_PAGE: usize = 1;

/// Page size used when none is given.
pub const DEFAULT_PAGE_SIZE: usize = 10;

/// One page of a result set together with the size of the whole set.
pub struct PaginatedResponse<T> {
    pub total_count: usize,
    pub data: Vec<T>,
}

/// The part of `q` that starts at `off` and holds at most `size` items.
pub open spec fn window<T>(q: Seq<T>, off: int, size: int) -> Seq<T> {
    let lo = if off < q.len() { off } else { q.len() as int };
    let hi = if off + size < q.len() { off + size } else { q.len() as int };
    q.subrange(lo, hi)
}

/// Offset of the first item of a page; pages count from one.
pub open spec fn page_offset(page: int, size: int) -> int {
    (page - 1) * size
}

/// The items of `q` on page `page` when pages hold `size` items.
pub open spec fn page_window<T>(q: Seq<T>, page: int, size: int) -> Seq<T> {
    window(q, page_offset(page, size), size)
}

/// Number of items on page `page` of a set of `total` items.
pub open spec fn page_len(total: int, page: int, size: int) -> int {
    let rest = total - page_offset(page, size);
    let avail = if rest > 0 { rest } else { 0 };
    if size < avail { size } else { avail }
}

/// The effective page and page size of a request, defaults applied.
pub open spec fn effective_page(page: Option<usize>) -> usize {
    match page {
        Some(p) => p,
        None => DEFAULT_PAGE,
    }
}

pub open spec fn effective_page_size(page_size: Option<usize>) -> usize {
    match page_size {
        Some(s) => s,
        None => DEFAULT_PAGE_SIZE,
    }
}

/// A request is rejected when its page size or its page is zero.
pub open spec fn page_request_valid(page: Option<usize>, page_size: Option<usize>) -> bool {
    effective_page_size(page_size) > 0 && effective_page(page) > 0
}

/// Appending an item to `q` extends the window exactly when the item's
/// position falls inside it.
pub proof fn lemma_window_push<T>(q: Seq<T>, x: T, off: int, size: int)
    requires
        off >= 0,
        size >= 0,
    ensures
        window(q.push(x), off, size) == (if off <= q.len() < off + size {
            window(q, off, size).push(x)
        } else {
            window(q, off, size)
        }),
{
    let n = q.len() as int;
    if off <= n && n < off + size {
        assert(window(q.push(x), off, size) =~= window(q, off, size).push(x));
    } else {
        assert(window(q.push(x), off, size) =~= window(q, off, size));
    }
}

/// A page holds `min(size, max(0, total - (page - 1) * size))` items.
pub proof fn lemma_page_window_len<T>(q: Seq<T>, page: int, size: int)
    requires
        page >= 1,
        size >= 1,
    ensures
        page_window(q, page, size).len() == page_len(q.len() as int, page, size),
{
    assert(page_offset(page, size) >= 0) by (nonlinear_arith)
        requires
            page >= 1,
            size >= 1,
    ;
}

/// Checks a page request and gives the offset of its first item, or `None`
/// where that offset does not fit in `usize`.
pub fn resolve_page(page: Option<usize>, page_size: Option<usize>) -> (r: Result<
    (usize, Option<usize>),
    ApiError,
>)
    ensures
        !page_request_valid(page, page_size) <==> r is Err,
        r is Err ==> r == Err::<(usize, Option<usize>), ApiError>(ApiError::Validation),
        r matches Ok((size, off)) ==> {
            &&& size == effective_page_size(page_size)
            &&& off matches Some(o) ==> o == page_offset(effective_page(page) as int, size as int)
            &&& off is None ==> page_offset(effective_page(page) as int, size as int) > usize::MAX
        },
{
    let page = match page {
        Some(p) => p,
        None => DEFAULT_PAGE,
    };
    let page_size = match page_size {
        Some(s) => s,
        None => DEFAULT_PAGE_SIZE,
    };
    if page_size == 0 || page == 0 {
        return Err(ApiError::Validation);
    }
    Ok((page_size, (page - 1).checked_mul(page_size)))
}

} // verus!
