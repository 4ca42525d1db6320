//! Page requests: normalising what the client asked for, and the window of
//! rows that a page covers.

use vstd::prelude::*;

verus! {

/// Rows per page when a request that is being prepared for its queries
/// names none.
pub const REQUEST_PER_PAGE: i64 = 10;

/// Rows per page when a window is computed and the request names none.
pub const WINDOW_PER_PAGE: i64 = 5;

/// A page request, and the same record as it is sent back with its rows.
///
/// `R` is the type of a row of the result; nothing here looks inside one.
#[derive(Debug, Clone, PartialEq, Eq)]
pub struct Page<R> {
    pub page: Option<i64>,
    pub per_page: Option<i64>,
    pub filtered_count: Option<i64>,
    pub total_count: Option<i64>,
    pub search: Option<String>,
    pub filters: Option<String>,
    pub orders: Option<String>,
    pub records: Option<Vec<R>>,
}

/// The page asked for; the first page where none, or none from 1 on, was.
pub open spec fn page_or_first(page: Option<i64>) -> int {
    match page {
        Some(p) => if p < 1 { 1 } else { p as int },
        None => 1,
    }
}

/// The page size asked for; `floor` where none, or none from 1 on, was.
pub open spec fn per_page_or(per_page: Option<i64>, floor: int) -> int {
    match per_page {
        Some(n) => if n < 1 { floor } else { n as int },
        None => floor,
    }
}

/// The number of pages that `filtered` rows fill, `per_page` rows to a page:
/// the quotient rounded up.
pub open spec fn max_page(filtered: int, per_page: int) -> int
    recommends
        per_page >= 1,
{
    (filtered + per_page - 1) / per_page
}

/// The page of the window: the page asked for, brought down to the last
/// page, and never before the first.
pub open spec fn window_page(page: int, filtered: int, per_page: int) -> int
    recommends
        per_page >= 1,
{
    let last = max_page(filtered, per_page);
    let clamped = if page > last { last } else { page };
    if clamped < 1 { 1 } else { clamped }
}

/// The rows before the window.
pub open spec fn window_offset(page: int, filtered: int, per_page: int) -> int
    recommends
        per_page >= 1,
{
    (window_page(page, filtered, per_page) - 1) * per_page
}

/// The quotient rounded up, from the quotient and remainder rounded down.
proof fn lemma_max_page(filtered: int, per_page: int)
    requires
        filtered >= 0,
        per_page >= 1,
    ensures
        max_page(filtered, per_page) == filtered / per_page + (if filtered % per_page == 0 {
            0int
        } else {
            1int
        }),
        (filtered / per_page) * per_page <= filtered,
        filtered / per_page >= 0,
        filtered > 0 ==> max_page(filtered, per_page) >= 1,
        filtered % per_page != 0 ==> filtered / per_page < filtered,
{
    let q = filtered / per_page;
    let r = filtered % per_page;
    assert(filtered == per_page * q + r && 0 <= r < per_page) by (nonlinear_arith)
        requires
            per_page >= 1,
            q == filtered / per_page,
            r == filtered % per_page,
    ;
    assert(q >= 0) by (nonlinear_arith)
        requires
            filtered == per_page * q + r,
            0 <= r < per_page,
            filtered >= 0,
            per_page >= 1,
    ;
    assert(q * per_page <= filtered) by (nonlinear_arith)
        requires
            filtered == per_page * q + r,
            0 <= r,
    ;
    let n = filtered + per_page - 1;
    assert(per_page * (q + 1) == per_page * q + per_page) by (nonlinear_arith);
    if r == 0 {
        assert(n / per_page == q) by (nonlinear_arith)
            requires
                n == per_page * q + (per_page - 1),
                per_page >= 1,
        ;
        assert(filtered > 0 ==> q >= 1) by (nonlinear_arith)
            requires
                filtered == per_page * q,
                per_page >= 1,
        ;
    } else {
        assert(q < filtered) by (nonlinear_arith)
            requires
                filtered == per_page * q + r,
                r > 0,
                q >= 0,
                per_page >= 1,
        ;
        assert(n / per_page == q + 1) by (nonlinear_arith)
            requires
                n == per_page * (q + 1) + (r - 1),
                0 <= r - 1 < per_page,
                per_page >= 1,
        ;
    }
}

/// With no rows the last page is no page at all.
proof fn lemma_max_page_of_none(filtered: int, per_page: int)
    requires
        filtered <= 0,
        per_page >= 1,
    ensures
        max_page(filtered, per_page) <= 0,
{
    let n = filtered + per_page - 1;
    assert(n / per_page <= 0) by (nonlinear_arith)
        requires
            n < per_page,
            per_page >= 1,
    ;
}

/// The window lies on a real page, and, where there are rows, starts
/// before the last of them.
pub proof fn lemma_window_in_bounds(page: int, filtered: int, per_page: int)
    requires
        per_page >= 1,
    ensures
        window_page(page, filtered, per_page) >= 1,
        window_offset(page, filtered, per_page) >= 0,
        page >= 1 && page <= max_page(filtered, per_page) ==> window_page(
            page,
            filtered,
            per_page,
        ) == page,
        filtered <= 0 ==> window_page(page, filtered, per_page) == 1 && window_offset(
            page,
            filtered,
            per_page,
        ) == 0,
        filtered > 0 ==> window_offset(page, filtered, per_page) < filtered,
{
    let w = window_page(page, filtered, per_page);
    assert((w - 1) * per_page >= 0) by (nonlinear_arith)
        requires
            w >= 1,
            per_page >= 1,
    ;
    if filtered <= 0 {
        lemma_max_page_of_none(filtered, per_page);
        assert(w == 1);
        assert((w - 1) * per_page == 0) by (nonlinear_arith)
            requires
                w == 1,
        ;
    } else {
        lemma_max_page(filtered, per_page);
        let q = filtered / per_page;
        let last = max_page(filtered, per_page);
        assert(w <= last);
        if filtered % per_page == 0 {
            assert((w - 1) * per_page < filtered) by (nonlinear_arith)
                requires
                    w - 1 <= q - 1,
                    q * per_page <= filtered,
                    per_page >= 1,
            ;
        } else {
            assert(filtered == per_page * q + filtered % per_page && filtered % per_page > 0)
                by (nonlinear_arith)
                requires
                    per_page >= 1,
                    q == filtered / per_page,
                    filtered % per_page != 0,
            ;
            assert((w - 1) * per_page < filtered) by (nonlinear_arith)
                requires
                    w - 1 <= q,
                    filtered == per_page * q + filtered % per_page,
                    filtered % per_page > 0,
                    per_page >= 1,
            ;
        }
    }
}

impl<R> Page<R> {
    /// The request made ready for its count and select queries: counts that
    /// an earlier answer left in it are cleared, the page is at least 1 and
    /// the page size at least 1, `floor` rows where none was given.
    pub fn normalize(self, floor: i64) -> (r: Self)
        requires
            floor >= 1,
        ensures
            r.filtered_count is None,
            r.total_count is None,
            r.page == Some(page_or_first(self.page) as i64),
            r.per_page == Some(per_page_or(self.per_page, floor as int) as i64),
            r.page->Some_0 >= 1,
            r.per_page->Some_0 >= 1,
            r.search == self.search,
            r.filters == self.filters,
            r.orders == self.orders,
            r.records == self.records,
    {
        let page: i64 = match self.page {
            Some(p) => if p < 1 { 1 } else { p },
            None => 1,
        };
        let per_page: i64 = match self.per_page {
            Some(n) => if n < 1 { floor } else { n },
            None => floor,
        };
        Page {
            page: Some(page),
            per_page: Some(per_page),
            filtered_count: None,
            total_count: None,
            search: self.search,
            filters: self.filters,
            orders: self.orders,
            records: self.records,
        }
    }

    /// The request made ready for its queries, with ten rows to a page
    /// where none was given.
    pub fn request(self) -> (r: Self)
        ensures
            r.filtered_count is None,
            r.total_count is None,
            r.page == Some(page_or_first(self.page) as i64),
            r.per_page == Some(per_page_or(self.per_page, REQUEST_PER_PAGE as int) as i64),
            r.search == self.search,
            r.filters == self.filters,
            r.orders == self.orders,
            r.records == self.records,
    {
        self.normalize(REQUEST_PER_PAGE)
    }

    /// The search text; empty where the request has none.
    pub fn search(&self) -> (r: String)
        ensures
            r@ == match self.search {
                Some(s) => s@,
                None => Seq::<char>::empty(),
            },
    {
        match &self.search {
            Some(s) => s.clone(),
            None => String::new(),
        }
    }

    /// The window of rows for this request, given its filtered count, as
    /// page, page size and offset: the page and page size normalised
    /// (`floor` rows where none was given), the page brought down to the
    /// last page that the count fills and never before the first, and the
    /// number of rows skipped before it.
    pub fn window(&self, floor: i64) -> (r: (i64, i64, i64))
        requires
            floor >= 1,
        ensures
            r.1 == per_page_or(self.per_page, floor as int),
            r.0 == window_page(
                page_or_first(self.page),
                filtered_or_none(self.filtered_count),
                r.1 as int,
            ),
            r.2 == (r.0 - 1) * r.1,
            r.0 >= 1,
            r.1 >= 1,
            r.2 >= 0,
            filtered_or_none(self.filtered_count) <= 0 ==> r.0 == 1 && r.2 == 0,
            filtered_or_none(self.filtered_count) > 0 ==> r.2 < filtered_or_none(
                self.filtered_count,
            ),
            page_or_first(self.page) <= max_page(
                filtered_or_none(self.filtered_count),
                r.1 as int,
            ) ==> r.0 == page_or_first(self.page),
    {
        let page: i64 = match self.page {
            Some(p) => if p < 1 { 1 } else { p },
            None => 1,
        };
        let per_page: i64 = match self.per_page {
            Some(n) => if n < 1 { floor } else { n },
            None => floor,
        };
        let filtered: i64 = match self.filtered_count {
            Some(n) => n,
            None => 0,
        };
        proof {
            lemma_window_in_bounds(page as int, filtered as int, per_page as int);
        }
        if filtered <= 0 {
            return (1, per_page, 0);
        }
        proof {
            lemma_max_page(filtered as int, per_page as int);
        }
        let full: i64 = filtered / per_page;
        let last: i64 = if filtered % per_page == 0 { full } else { full + 1 };
        let shown: i64 = if page > last { last } else { page };
        assert(0 <= (shown - 1) * per_page < filtered);
        (shown, per_page, (shown - 1) * per_page)
    }

    /// The window of rows for this request, with five rows to a page where
    /// none was given.
    pub fn limit(&self) -> (r: (i64, i64, i64))
        ensures
            r.1 == per_page_or(self.per_page, WINDOW_PER_PAGE as int),
            r.0 == window_page(
                page_or_first(self.page),
                filtered_or_none(self.filtered_count),
                r.1 as int,
            ),
            r.2 == (r.0 - 1) * r.1,
            r.0 >= 1,
            r.1 >= 1,
            r.2 >= 0,
            filtered_or_none(self.filtered_count) <= 0 ==> r.0 == 1 && r.2 == 0,
            filtered_or_none(self.filtered_count) > 0 ==> r.2 < filtered_or_none(
                self.filtered_count,
            ),
            page_or_first(self.page) <= max_page(
                filtered_or_none(self.filtered_count),
                r.1 as int,
            ) ==> r.0 == page_or_first(self.page),
    {
        self.window(WINDOW_PER_PAGE)
    }

    /// The record as it is sent back to the client: the raw search, filter
    /// and order texts are not echoed.
    pub fn response(self) -> (r: Self)
        ensures
            r.search is None,
            r.filters is None,
            r.orders is None,
            r.page == self.page,
            r.per_page == self.per_page,
            r.filtered_count == self.filtered_count,
            r.total_count == self.total_count,
            r.records == self.records,
    {
        Page {
            page: self.page,
            per_page: self.per_page,
            filtered_count: self.filtered_count,
            total_count: self.total_count,
            search: None,
            filters: None,
            orders: None,
            records: self.records,
        }
    }
}

/// The filtered count of a request; 0 where it has none.
pub open spec fn filtered_or_none(filtered: Option<i64>) -> int {
    match filtered {
        Some(n) => n as int,
        None => 0,
    }
}

impl<R> Default for Page<R> {
    fn default() -> (r: Self)
        ensures
            r.page is None,
            r.per_page is None,
            r.filtered_count is None,
            r.total_count is None,
            r.search is None,
            r.filters is None,
            r.orders is None,
            r.records is None,
    {
        Page {
            page: None,
            per_page: None,
            filtered_count: None,
            total_count: None,
            search: None,
            filters: None,
            orders: None,
            records: None,
        }
    }
}

} // verus!
