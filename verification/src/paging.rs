//! Page/size policy and the paginated envelope.
//!
//! Clamping is silent by design: a negative page becomes page zero and a
//! size below one becomes one. The page window and the page count are the
//! reference semantics that the data and count statements of
//! [`crate::query`] are expected to realize.

use vstd::prelude::*;

verus! {

/// A page of rows together with the size of the whole match set and the
/// number of pages it spans.
#[derive(Clone, Debug)]
pub struct PaginatedResponse<T> {
    pub content: Vec<T>,
    pub total_of_elements: i64,
    pub total_of_pages: i64,
}

/// A negative page clamps to the first page.
pub fn clamp_page(page: i64) -> (r: i64)
    ensures
        r == if page < 0 {
            0int
        } else {
            page as int
        },
{
    if page < 0 {
        0
    } else {
        page
    }
}

/// A size below one clamps to one.
pub fn clamp_size(size: i64) -> (r: i64)
    ensures
        r == if size < 1 {
            1int
        } else {
            size as int
        },
{
    if size < 1 {
        1
    } else {
        size
    }
}

/// Resolves the optional page/size parameters of a listing request: page
/// defaults to 0 and clamps below at 0, size defaults to 5 and clamps
/// below at 1, both silently.
pub fn resolve_page_params(page: Option<i64>, size: Option<i64>) -> (r: (i64, i64))
    ensures
        r.0 == if page.unwrap_or(0) < 0 {
            0int
        } else {
            page.unwrap_or(0) as int
        },
        r.1 == if size.unwrap_or(5) < 1 {
            1int
        } else {
            size.unwrap_or(5) as int
        },
        r.0 >= 0,
        r.1 >= 1,
{
    let p = clamp_page(page.unwrap_or(0));
    let s = clamp_size(size.unwrap_or(5));
    (p, s)
}

/// The number of pages a match set spans: `total / size`, rounded up.
pub open spec fn spec_ceil_div(total: int, size: int) -> int {
    total / size + if total % size != 0 {
        1int
    } else {
        0int
    }
}

/// `spec_ceil_div` is the true ceiling: its pages cover the whole match
/// set, and one page fewer would not.
pub proof fn lemma_ceil_div_is_ceiling(total: int, size: int)
    requires
        0 <= total,
        1 <= size,
    ensures
        spec_ceil_div(total, size) * size >= total,
        (spec_ceil_div(total, size) - 1) * size < total,
        0 <= spec_ceil_div(total, size),
{
    assert((total / size) * size + total % size == total && 0 <= total % size < size && 0 <= total
        / size) by (nonlinear_arith)
        requires
            0 <= total && 1 <= size,
    ;
    let q = total / size;
    if total % size != 0 {
        assert((q + 1) * size == q * size + size) by (nonlinear_arith);
    } else {
        assert((q - 1) * size == q * size - size) by (nonlinear_arith);
    }
}

/// Computes the page count of a match set.
pub fn total_pages(total: i64, size: i64) -> (r: i64)
    requires
        0 <= total,
        1 <= size,
    ensures
        r == spec_ceil_div(total as int, size as int),
{
    proof {
        assert(0 <= total as int / size as int <= total) by (nonlinear_arith)
            requires
                0 <= total && 1 <= size,
        ;
        if total as int % size as int != 0 {
            assert(2 <= size) by (nonlinear_arith)
                requires
                    1 <= size && total as int % size as int != 0,
            ;
            assert((total as int / size as int) < total) by (nonlinear_arith)
                requires
                    0 <= total && 2 <= size && total as int % size as int != 0,
            ;
        }
    }
    let q = total / size;
    if total % size != 0 {
        q + 1
    } else {
        q
    }
}

/// The window a page shows of an ordered match set: up to `size` rows
/// starting at `size * page`, clipped to the set.
pub open spec fn spec_page_window<T>(rows: Seq<T>, page: int, size: int) -> Seq<T> {
    let start = if size * page <= rows.len() {
        size * page
    } else {
        rows.len() as int
    };
    let end = if size * page + size <= rows.len() {
        size * page + size
    } else {
        rows.len() as int
    };
    rows.subrange(start, end)
}

/// Takes the page window out of an ordered match set. The result never
/// holds more than `size` rows.
pub fn page_slice<T>(rows: Vec<T>, page: i64, size: i64) -> (r: Vec<T>)
    requires
        0 <= page,
        1 <= size,
        size as int * page as int + size as int <= i64::MAX,
        size as int * page as int + size as int <= usize::MAX,
    ensures
        r@ == spec_page_window(rows@, page as int, size as int),
        r@.len() <= size,
{
    proof {
        assert(0 <= size as int * page as int) by (nonlinear_arith)
            requires
                1 <= size && 0 <= page,
        ;
    }
    let offset: i64 = size * page;
    let offset: usize = offset as usize;
    let mut rows = rows;
    let ghost orig = rows@;
    if offset >= rows.len() {
        proof {
            assert(spec_page_window(orig, page as int, size as int) =~= Seq::<T>::empty());
        }
        Vec::new()
    } else {
        let mut tail = rows.split_off(offset);
        let avail = tail.len();
        let sz = size as usize;
        if sz < avail {
            tail.truncate(sz);
        }
        proof {
            assert(tail@ =~= spec_page_window(orig, page as int, size as int));
        }
        tail
    }
}

/// Wraps one page of rows in the paginated envelope, deriving the page
/// count from the total and the page size.
pub fn paginate<T>(content: Vec<T>, total_of_elements: i64, size: i64) -> (r: PaginatedResponse<
    T,
>)
    requires
        0 <= total_of_elements,
        1 <= size,
    ensures
        r.content == content,
        r.total_of_elements == total_of_elements,
        r.total_of_pages == spec_ceil_div(total_of_elements as int, size as int),
{
    let total_of_pages = total_pages(total_of_elements, size);
    PaginatedResponse { content, total_of_elements, total_of_pages }
}

} // verus!
