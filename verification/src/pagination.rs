//! Paging of listings: which slice of the filtered rows a page shows, and what a
//! page reports about the whole listing.

use vstd::prelude::*;

verus! {

/// The page that is shown where a query names none.
pub const DEFAULT_PAGE: u32 = 1;

/// The number of rows on a page where a query names none.
pub const DEFAULT_PAGE_SIZE: u32 = 20;

/// The most rows that one page shows.
pub const MAX_PAGE_SIZE: u32 = 100;

/// The page number of a transaction listing where a query names none.
pub fn default_page() -> (page: i32)
    ensures
        page == 1,
{
    1
}

/// The page size of a transaction listing where a query names none.
pub fn default_size() -> (size: i32)
    ensures
        size == 10,
{
    10
}

/// How many pages of `size` rows it takes to show `count` rows.
pub open spec fn pages_needed(count: int, size: int) -> int
    recommends
        count >= 0,
        size > 0,
{
    (count + size - 1) / size
}

/// How many rows stand before the page `page` of `size` rows; none before a page that
/// is not counted from the first on.
pub open spec fn page_offset(page: int, size: int) -> int {
    if page < 1 {
        0
    } else {
        (page - 1) * size
    }
}

/// The number of pages is the least number that holds all rows.
pub proof fn pages_needed_is_least(count: int, size: int)
    requires
        count >= 0,
        size > 0,
    ensures
        pages_needed(count, size) * size >= count,
        (pages_needed(count, size) - 1) * size < count || count == 0,
        count == 0 ==> pages_needed(count, size) == 0,
{
    let p = pages_needed(count, size);
    let n = count + size - 1;
    assert(n == size * (n / size) + n % size && 0 <= n % size < size) by (nonlinear_arith)
        requires
            size > 0,
    ;
    assert(p * size == size * p) by (nonlinear_arith);
    assert((p - 1) * size == size * p - size) by (nonlinear_arith);
    if count == 0 {
        assert(n / size == 0) by (nonlinear_arith)
            requires
                0 <= n < size,
        ;
    }
}

/// One page of a listing, in the shape in which transaction listings report it.
pub struct PaginationResponse<T> {
    pub content: Vec<T>,
    pub page: i32,
    pub size: i32,
    pub total_elements: i64,
    pub total_pages: i32,
    pub is_first: bool,
    pub is_last: bool,
}

/// The magnitude of an integer.
pub open spec fn magnitude(x: int) -> int {
    if x < 0 {
        -x
    } else {
        x
    }
}

/// The least whole number that is not below `total / size`, for a `size` other than
/// zero: the pages needed where both have one sign, and a number not above zero where
/// they have not.
pub open spec fn quotient_ceiling(total: int, size: int) -> int {
    if (total >= 0) == (size > 0) {
        pages_needed(magnitude(total), magnitude(size))
    } else {
        -(magnitude(total) / magnitude(size))
    }
}

/// The number of pages that a transaction listing reports: the least whole number not
/// below `total_elements / size`, kept within the range of `i32`. Where `size` is
/// zero, it is the greatest `i32` for a positive count, the least for a negative one,
/// and zero for none.
pub open spec fn reported_pages(total_elements: i64, size: i32) -> int {
    if size == 0 {
        if total_elements > 0 {
            i32::MAX as int
        } else if total_elements < 0 {
            i32::MIN as int
        } else {
            0
        }
    } else if quotient_ceiling(total_elements as int, size as int) > i32::MAX {
        i32::MAX as int
    } else if quotient_ceiling(total_elements as int, size as int) < i32::MIN {
        i32::MIN as int
    } else {
        quotient_ceiling(total_elements as int, size as int)
    }
}

/// For a count that is not negative and a positive size, the pages reported are the
/// pages needed, as far as an `i32` holds them.
pub proof fn reported_pages_are_pages_needed(total_elements: i64, size: i32)
    requires
        total_elements >= 0,
        size > 0,
    ensures
        reported_pages(total_elements, size) == if pages_needed(
            total_elements as int,
            size as int,
        ) > i32::MAX {
            i32::MAX as int
        } else {
            pages_needed(total_elements as int, size as int)
        },
{
    pages_needed_is_least(total_elements as int, size as int);
}

impl<T> PaginationResponse<T> {
    /// The page `page` of a listing of `total_elements` rows in pages of `size` rows,
    /// showing `content`. It is the first page where `page` is 1, and the last where
    /// `page` is not below the number of pages.
    pub fn new(content: Vec<T>, page: i32, size: i32, total_elements: i64) -> (out: Self)
        ensures
            out.content == content,
            out.page == page,
            out.size == size,
            out.total_elements == total_elements,
            out.total_pages == reported_pages(total_elements, size),
            out.is_first == (page == 1),
            out.is_last == (page >= out.total_pages),
    {
        let total_pages: i32 = if size == 0 {
            if total_elements > 0 {
                i32::MAX
            } else if total_elements < 0 {
                i32::MIN
            } else {
                0
            }
        } else {
            let t: u64 = if total_elements < 0 {
                (-(total_elements + 1)) as u64 + 1
            } else {
                total_elements as u64
            };
            let s: u64 = if size < 0 {
                (-(size as i64)) as u64
            } else {
                size as u64
            };
            proof {
                assert(t == magnitude(total_elements as int));
                assert(s == magnitude(size as int) && s > 0);
            }
            if (total_elements >= 0) == (size > 0) {
                if t == 0 {
                    proof {
                        pages_needed_is_least(0, s as int);
                    }
                    0
                } else {
                    let needed: u64 = (t - 1) / s + 1;
                    proof {
                        let ti = t as int;
                        let si = s as int;
                        assert((ti - 1) / si + 1 == (ti + si - 1) / si) by (nonlinear_arith)
                            requires
                                ti > 0,
                                si > 0,
                        ;
                    }
                    if needed > i32::MAX as u64 {
                        i32::MAX
                    } else {
                        needed as i32
                    }
                }
            } else {
                let below: u64 = t / s;
                if below > 0x8000_0000 {
                    i32::MIN
                } else {
                    (-(below as i64)) as i32
                }
            }
        };
        PaginationResponse {
            content,
            page,
            size,
            total_elements,
            total_pages,
            is_first: page == 1,
            is_last: page >= total_pages,
        }
    }
}

/// The page and the page size that a listing query asks for.
#[derive(Debug, Clone, Copy, PartialEq, Eq, Structural)]
pub struct PageWindow {
    pub page: u32,
    pub page_size: u32,
}

/// The window of a query: the page it names, but at least the first, and the page size
/// it names, but at most `MAX_PAGE_SIZE`; the defaults where it names none.
pub open spec fn window_of(page: Option<u32>, page_size: Option<u32>) -> PageWindow {
    PageWindow {
        page: match page {
            Some(p) => if p < 1 {
                1
            } else {
                p
            },
            None => DEFAULT_PAGE,
        },
        page_size: match page_size {
            Some(s) => if s > MAX_PAGE_SIZE {
                MAX_PAGE_SIZE
            } else {
                s
            },
            None => DEFAULT_PAGE_SIZE,
        },
    }
}

impl PageWindow {
    /// The window of a query.
    pub fn from_query(page: Option<u32>, page_size: Option<u32>) -> (window: Self)
        ensures
            window == window_of(page, page_size),
            window.page >= 1,
            window.page_size <= MAX_PAGE_SIZE,
    {
        let page = match page {
            Some(p) => if p < 1 {
                1
            } else {
                p
            },
            None => DEFAULT_PAGE,
        };
        let page_size = match page_size {
            Some(s) => if s > MAX_PAGE_SIZE {
                MAX_PAGE_SIZE
            } else {
                s
            },
            None => DEFAULT_PAGE_SIZE,
        };
        PageWindow { page, page_size }
    }

    /// How many rows stand before the window.
    pub open spec fn offset_of(self) -> int {
        page_offset(self.page as int, self.page_size as int)
    }

    /// How many rows stand before the window.
    pub fn offset(&self) -> (offset: u64)
        ensures
            offset == self.offset_of(),
    {
        if self.page < 1 {
            return 0;
        }
        let before: u64 = (self.page - 1) as u64;
        let size: u64 = self.page_size as u64;
        proof {
            assert(0 <= before * size <= 0xffff_ffff * 0xffff_ffff) by (nonlinear_arith)
                requires
                    0 <= before <= 0xffff_ffff,
                    0 <= size <= 0xffff_ffff,
            ;
        }
        before * size
    }
}

/// The number of pages that an event listing reports: the pages needed, or the
/// greatest `u32` where they are more or where a page holds no rows and there are some.
pub open spec fn listed_pages(filtered_elements: u64, page_size: u32) -> int {
    if page_size == 0 {
        if filtered_elements == 0 {
            0
        } else {
            u32::MAX as int
        }
    } else if pages_needed(filtered_elements as int, page_size as int) > u32::MAX {
        u32::MAX as int
    } else {
        pages_needed(filtered_elements as int, page_size as int)
    }
}

/// Whether rows follow the page of `window` among `filtered_elements` rows.
pub open spec fn more_follow(window: PageWindow, filtered_elements: u64) -> bool {
    window.offset_of() + window.page_size < filtered_elements
}

/// One page of a listing, in the shape in which event listings report it.
pub struct PaginatedResponse<T> {
    pub content: Vec<T>,
    pub page: u32,
    pub page_size: u32,
    /// How many rows the project has.
    pub total_elements: u64,
    /// How many of them pass the filter of the query.
    pub filtered_elements: u64,
    pub total_pages: u32,
    pub has_next: bool,
}

impl<T> PaginatedResponse<T> {
    /// The page of `window` showing `content`, of a listing that holds
    /// `filtered_elements` of the `total_elements` rows of a project.
    pub fn new(content: Vec<T>, window: PageWindow, total_elements: u64, filtered_elements: u64) -> (out:
        Self)
        ensures
            out.content == content,
            out.page == window.page,
            out.page_size == window.page_size,
            out.total_elements == total_elements,
            out.filtered_elements == filtered_elements,
            out.total_pages == listed_pages(filtered_elements, window.page_size),
            out.has_next == more_follow(window, filtered_elements),
    {
        let total_pages: u32 = if window.page_size == 0 {
            if filtered_elements == 0 {
                0
            } else {
                u32::MAX
            }
        } else if filtered_elements == 0 {
            proof {
                pages_needed_is_least(0, window.page_size as int);
            }
            0
        } else {
            let size = window.page_size as u64;
            let needed: u64 = (filtered_elements - 1) / size + 1;
            proof {
                let t = filtered_elements as int;
                let s = size as int;
                assert((t - 1) / s + 1 == (t + s - 1) / s) by (nonlinear_arith)
                    requires
                        t > 0,
                        s > 0,
                ;
            }
            if needed > u32::MAX as u64 {
                u32::MAX
            } else {
                needed as u32
            }
        };
        let shown_to: u128 = window.offset() as u128 + window.page_size as u128;
        PaginatedResponse {
            content,
            page: window.page,
            page_size: window.page_size,
            total_elements,
            filtered_elements,
            total_pages,
            has_next: shown_to < filtered_elements as u128,
        }
    }
}

/// The positions of the rows that the page of `window` shows among `count` rows:
/// from the offset of the window, as many as a page holds, as far as there are rows.
pub open spec fn page_range(window: PageWindow, count: int) -> (int, int) {
    let start = if window.offset_of() < count {
        window.offset_of()
    } else {
        count
    };
    let end = if window.offset_of() + window.page_size < count {
        window.offset_of() + window.page_size
    } else {
        count
    };
    (start, end)
}

/// The positions of the rows that the page of `window` shows among `count` rows.
pub fn page_bounds(window: PageWindow, count: usize) -> (range: (usize, usize))
    ensures
        range.0 == page_range(window, count as int).0,
        range.1 == page_range(window, count as int).1,
        range.0 <= range.1 <= count,
{
    let offset = window.offset();
    let start: usize = if offset < count as u64 {
        offset as usize
    } else {
        count
    };
    let shown_to: u128 = offset as u128 + window.page_size as u128;
    let end: usize = if shown_to < count as u128 {
        shown_to as usize
    } else {
        count
    };
    (start, end)
}

} // verus!
