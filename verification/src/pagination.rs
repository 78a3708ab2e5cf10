//! Page numbers, offsets and page links of paged lists.
use vstd::prelude::*;

use crate::text::{chars_of, contains_char, int_dec, nat_dec, push_char, push_str, push_u64, string_of};

verus! {

pub const ADMIN_PER_PAGE: u32 = 10;

pub const PUBLIC_PER_PAGE: u32 = 100;

pub const PUBLIC_TAX_PER_PAGE: u32 = 50;

/// The `?page=` query of a list.
#[derive(Debug, Clone)]
pub struct PageQuery {
    pub page: Option<u32>,
}

#[derive(Debug, Clone)]
pub struct Pagination {
    pub page: u32,
    pub per_page: u32,
    pub total: i64,
    pub base_url: String,
}

/// The number of pages `total` items fill, `per_page` to a page, as a `u32`
/// (the count wraps where it does not fit, as a cast to the type does).
pub open spec fn total_pages_of(total: int, per_page: int) -> int {
    if total <= 0 || per_page == 0 {
        0
    } else {
        ((total + per_page - 1) / per_page) % 0x1_0000_0000
    }
}

/// The page a request lands on: the asked page (1 when none), at least 1,
/// and at most the last page when there is one.
pub open spec fn landing_page(page: Option<u32>, per_page: int, total: int) -> int {
    let p = match page {
        Some(p) => if p < 1 {
            1
        } else {
            p as int
        },
        None => 1,
    };
    let tp = total_pages_of(total, per_page);
    if tp > 0 && p > tp {
        tp
    } else {
        p
    }
}

/// The link to a page: the base URL, `?` or `&` (whichever keeps the query
/// well formed), and `page=<n>`.
pub open spec fn page_url(base: Seq<char>, page: int) -> Seq<char> {
    let sep = if base.contains('?') {
        '&'
    } else {
        '?'
    };
    base.push(sep) + "page="@ + int_dec(page)
}

impl Pagination {
    pub open spec fn pages(&self) -> int {
        total_pages_of(self.total as int, self.per_page as int)
    }

    pub open spec fn next(&self) -> int {
        if self.pages() == 0 {
            1
        } else if self.page + 1 < self.pages() {
            self.page + 1
        } else {
            self.pages()
        }
    }

    pub fn new(page: Option<u32>, per_page: u32, total: i64, base_url: &str) -> (r: Self)
        ensures
            r.page == landing_page(page, per_page as int, total as int),
            r.per_page == per_page,
            r.total == total,
            r.base_url@ == base_url@,
    {
        let mut p: u32 = match page {
            Some(p) => if p < 1 {
                1
            } else {
                p
            },
            None => 1,
        };
        let tp = Self::calc_total_pages(total, per_page);
        if tp > 0 && p > tp {
            p = tp;
        }
        Pagination { page: p, per_page, total, base_url: string_of(base_url) }
    }

    fn calc_total_pages(total: i64, per_page: u32) -> (r: u32)
        ensures
            r == total_pages_of(total as int, per_page as int),
    {
        if total <= 0 || per_page == 0 {
            return 0;
        }
        let q: u64 = (total as u64 + per_page as u64 - 1) / (per_page as u64);
        (q % 0x1_0000_0000u64) as u32
    }

    /// How many items the pages before this one hold.
    pub fn offset(&self) -> (r: i64)
        requires
            i64::MIN <= (self.page - 1) * self.per_page <= i64::MAX,
        ensures
            r == (self.page - 1) * self.per_page,
    {
        ((self.page as i64) - 1) * (self.per_page as i64)
    }

    pub fn limit(&self) -> (r: i64)
        ensures
            r == self.per_page,
    {
        self.per_page as i64
    }

    pub fn total_pages(&self) -> (r: u32)
        ensures
            r == self.pages(),
    {
        Self::calc_total_pages(self.total, self.per_page)
    }

    pub fn has_next(&self) -> (r: bool)
        ensures
            r == (self.pages() > 0 && self.page < self.pages()),
    {
        let tp = self.total_pages();
        tp > 0 && self.page < tp
    }

    /// The page after this one, kept within the last page; 1 when the list
    /// is empty.
    pub fn next_page(&self) -> (r: u32)
        requires
            self.pages() == 0 || self.page < u32::MAX,
        ensures
            r == self.next(),
    {
        let tp = self.total_pages();
        if tp == 0 {
            1
        } else if self.page + 1 < tp {
            self.page + 1
        } else {
            tp
        }
    }

    /// Whether the list needs more than one page.
    pub fn show(&self) -> (r: bool)
        ensures
            r == (self.total > self.per_page),
    {
        self.total > self.per_page as i64
    }

    pub fn url_for(&self, page: u32) -> (r: String)
        ensures
            r@ == page_url(self.base_url@, page as int),
    {
        let base = chars_of(self.base_url.as_str());
        let sep = if contains_char(&base, '?') {
            '&'
        } else {
            '?'
        };
        let mut out = self.base_url.clone();
        push_char(&mut out, sep);
        push_str(&mut out, "page=");
        push_u64(&mut out, page as u64);
        out
    }

    pub fn next_url(&self) -> (r: String)
        requires
            self.pages() == 0 || self.page < u32::MAX,
        ensures
            r@ == page_url(self.base_url@, self.next()),
    {
        self.url_for(self.next_page())
    }
}

/// Every list lands on a page from 1 to its last page, or on the asked page
/// (at least 1) when the list is empty.
pub proof fn law_landing_page_in_range(page: Option<u32>, per_page: u32, total: i64)
    ensures
        1 <= landing_page(page, per_page as int, total as int),
        total_pages_of(total as int, per_page as int) > 0 ==> landing_page(
            page,
            per_page as int,
            total as int,
        ) <= total_pages_of(total as int, per_page as int),
{
}

/// The pages hold the whole list and no page is empty: where the page count
/// fits in a `u32`, the pages before the last hold fewer items than the
/// list, and all pages together hold at least the list.
pub proof fn law_pages_cover_total(total: i64, per_page: u32)
    requires
        total > 0,
        per_page > 0,
        (total + per_page - 1) / (per_page as int) < 0x1_0000_0000,
    ensures
        ({
            let tp = total_pages_of(total as int, per_page as int);
            &&& tp >= 1
            &&& (tp - 1) * per_page < total
            &&& total <= tp * per_page
        }),
{
    let tp = total_pages_of(total as int, per_page as int);
    let q = (total + per_page - 1) / (per_page as int);
    assert(tp == q);
    let p = per_page as int;
    let t = total as int;
    assert(q * p <= t + p - 1 < q * p + p) by (nonlinear_arith)
        requires
            q == (t + p - 1) / p,
            p > 0,
    ;
    assert(q >= 1) by (nonlinear_arith)
        requires
            q * p + p > t + p - 1,
            t > 0,
            p > 0,
    ;
    assert((q - 1) * p == q * p - p) by (nonlinear_arith);
}

/// Following `next` from a page before the last moves one page on; from the
/// last page it stays.
pub proof fn law_next_page_steps(p: Pagination)
    requires
        1 <= p.page <= p.pages(),
    ensures
        p.pages() > 0,
        p.page < p.pages() ==> p.next() == p.page + 1,
        p.page == p.pages() ==> p.next() == p.page,
{
}

} // verus!
