use vstd::prelude::*;

verus! {

/// One page out of a larger result list, together with the figures a caller
/// needs to render paging controls.
pub struct PaginationResult<T> {
    pub items: Vec<T>,
    pub total: usize,
    pub page: usize,
    pub limit: usize,
    pub total_pages: usize,
    pub has_next: bool,
    pub has_previous: bool,
}

/// Ceiling of `total / limit`.
pub open spec fn pages_of(total: nat, limit: nat) -> nat
    recommends
        limit > 0,
{
    ((total + limit - 1) / limit as int) as nat
}

impl<T> PaginationResult<T> {
    /// Cuts the window `[offset, offset + limit)` out of `items` and records
    /// the paging figures of the full list.
    pub fn from(items: Vec<T>, limit: usize, offset: usize) -> (r: Self)
        requires
            limit > 0,
            offset + limit <= usize::MAX,
        ensures
            r.total == items@.len(),
            r.limit == limit,
            r.page == offset / limit + 1,
            r.total_pages == pages_of(items@.len(), limit as nat),
            r.has_next == (offset + limit < items@.len()),
            r.has_previous == (offset > 0),
            r.items@ == items@.subrange(
                vstd::math::min(offset as int, items@.len() as int),
                vstd::math::min(offset as int + limit, items@.len() as int),
            ),
    {
        let total = items.len();
        let page = offset / limit + 1;
        let total_pages = if total == 0 {
            0
        } else {
            (total - 1) / limit + 1
        };
        let ghost full = items@;

        let mut items = items;
        let mut window: Vec<T>;
        if offset >= items.len() {
            window = Vec::new();
        } else {
            window = items.split_off(offset);
            if window.len() > limit {
                window.truncate(limit);
            }
        }
        proof {
            assert(window@ =~= full.subrange(
                vstd::math::min(offset as int, full.len() as int),
                vstd::math::min(offset as int + limit, full.len() as int),
            ));
            if total > 0 {
                assert((total - 1) / limit as int + 1 == pages_of(total as nat, limit as nat))
                    by (nonlinear_arith)
                    requires
                        limit > 0,
                        total > 0,
                ;
            } else {
                assert(pages_of(0, limit as nat) == 0) by (nonlinear_arith)
                    requires
                        limit > 0,
                ;
            }
        }

        PaginationResult {
            items: window,
            total,
            page,
            limit,
            total_pages,
            has_next: offset + limit < total,
            has_previous: offset > 0,
        }
    }

    /// An empty first page with the default window size.
    pub fn new() -> (r: Self)
        ensures
            r.items@.len() == 0,
            r.total == 0,
            r.page == 1,
            r.limit == 10,
            r.total_pages == 0,
            !r.has_next,
            !r.has_previous,
    {
        PaginationResult {
            items: Vec::new(),
            total: 0,
            page: 1,
            limit: 10,
            total_pages: 0,
            has_next: false,
            has_previous: false,
        }
    }
}

} // verus!
