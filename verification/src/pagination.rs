//! Resolution of optional `page` / `page_size` request parameters into
//! concrete values and a row offset.

use vstd::prelude::*;

verus! {

/// Effective pagination parameters: the (defaulted) page and page size that
/// are echoed back to the caller, and the row offset the page query starts at.
pub struct Pagination {
    pub page: i32,
    pub page_size: i32,
    pub offset: i64,
}

/// The page that an optional request parameter stands for: 1 when absent.
pub open spec fn effective_page(page: Option<i32>) -> int {
    match page {
        Some(p) => p as int,
        None => 1,
    }
}

/// The page size that an optional request parameter stands for: 10 when absent.
pub open spec fn effective_page_size(page_size: Option<i32>) -> int {
    match page_size {
        Some(s) => s as int,
        None => 10,
    }
}

/// The offset of the first row of a page: `(page - 1) * page_size`.
pub open spec fn offset_of(page: int, page_size: int) -> int {
    (page - 1) * page_size
}

/// Turns the optional request parameters into concrete values and an offset.
///
/// No validation happens here: non-positive values pass through and yield a
/// non-positive offset, which the query evaluation layer then rejects.
pub fn resolve_pagination(page: Option<i32>, page_size: Option<i32>) -> (r: Pagination)
    ensures
        r.page as int == effective_page(page),
        r.page_size as int == effective_page_size(page_size),
        r.offset as int == offset_of(r.page as int, r.page_size as int),
{
    let p: i32 = match page {
        Some(v) => v,
        None => 1,
    };
    let s: i32 = match page_size {
        Some(v) => v,
        None => 10,
    };
    proof {
        let a: int = p as int - 1;
        let b: int = s as int;
        assert(a * b <= 0x4000_0000_8000_0000int && a * b >= -0x4000_0000_8000_0000int)
            by (nonlinear_arith)
            requires
                -0x8000_0001int <= a <= 0x8000_0001int,
                -0x8000_0000int <= b <= 0x8000_0000int,
        ;
    }
    let offset: i64 = (p as i64 - 1) * (s as i64);
    Pagination { page: p, page_size: s, offset }
}

/// Omitting `page` or `page_size` is the same as supplying `1` and `10`:
/// the effective parameters, and with them the offset, agree exactly.
pub proof fn lemma_omitted_params_default(page: Option<i32>, page_size: Option<i32>)
    ensures
        page is None ==> effective_page(page) == effective_page(Some(1i32)),
        page_size is None ==> effective_page_size(page_size) == effective_page_size(Some(10i32)),
        offset_of(1, 10) == 0,
{
}

} // verus!
