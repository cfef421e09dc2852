//! Generic pagination and sorting types.

use vstd::prelude::*;

verus! {

/// Sort direction.
#[derive(Debug, Clone, Copy, PartialEq, Eq, Structural)]
pub enum SortDirection {
    /// Ascending order.
    Asc,
    /// Descending order (the default).
    Desc,
}

impl Default for SortDirection {
    fn default() -> (r: Self)
        ensures
            r == SortDirection::Desc,
    {
        SortDirection::Desc
    }
}

/// The direction opposite to `d`.
pub open spec fn opposite(d: SortDirection) -> SortDirection {
    match d {
        SortDirection::Asc => SortDirection::Desc,
        SortDirection::Desc => SortDirection::Asc,
    }
}

impl SortDirection {
    /// Returns the SQL keyword for this direction.
    pub fn as_sql(self) -> (r: &'static str)
        ensures
            r@ == (match self {
                SortDirection::Asc => "ASC"@,
                SortDirection::Desc => "DESC"@,
            }),
    {
        match self {
            SortDirection::Asc => "ASC",
            SortDirection::Desc => "DESC",
        }
    }

    /// Return the opposite direction.
    pub fn toggle(self) -> (r: Self)
        ensures
            r == opposite(self),
    {
        match self {
            SortDirection::Asc => SortDirection::Desc,
            SortDirection::Desc => SortDirection::Asc,
        }
    }
}

/// Toggling twice gives the direction back, and toggling always changes it.
pub proof fn law_toggle_involution(d: SortDirection)
    ensures
        opposite(opposite(d)) == d,
        opposite(d) != d,
{
}

/// Columns that events can be sorted by.
#[derive(Debug, Clone, Copy, PartialEq, Eq, Structural)]
pub enum EventSortKey {
    /// Sort by timestamp (the default).
    Timestamp,
    /// Sort by command name.
    Comm,
    /// Sort by exit code.
    ExitCode,
}

impl Default for EventSortKey {
    fn default() -> (r: Self)
        ensures
            r == EventSortKey::Timestamp,
    {
        EventSortKey::Timestamp
    }
}

/// The SQL column of a sort key.
pub open spec fn sort_column(k: EventSortKey) -> Seq<char> {
    match k {
        EventSortKey::Timestamp => "timestamp"@,
        EventSortKey::Comm => "comm"@,
        EventSortKey::ExitCode => "exit_code"@,
    }
}

impl EventSortKey {
    /// Returns the SQL column name for this sort key.
    pub fn as_sql_column(self) -> (r: &'static str)
        ensures
            r@ == sort_column(self),
    {
        match self {
            EventSortKey::Timestamp => "timestamp",
            EventSortKey::Comm => "comm",
            EventSortKey::ExitCode => "exit_code",
        }
    }
}

/// A request for a paginated, sorted list.
#[derive(Debug, Clone)]
pub struct ListRequest {
    /// 1-indexed page number.
    pub page: u32,
    /// Items per page.
    pub page_size: u32,
    /// Column to sort by.
    pub sort: EventSortKey,
    /// Sort direction.
    pub direction: SortDirection,
}

impl Default for ListRequest {
    fn default() -> (r: Self)
        ensures
            r.page == 1,
            r.page_size == 25,
            r.sort == EventSortKey::Timestamp,
            r.direction == SortDirection::Desc,
    {
        ListRequest {
            page: 1,
            page_size: 25,
            sort: EventSortKey::Timestamp,
            direction: SortDirection::Desc,
        }
    }
}

/// The number of items before page `page` (pages before 1 count as 1).
pub open spec fn offset_of(page: u32, page_size: u32) -> int {
    (if page > 0 {
        page - 1
    } else {
        0
    }) * page_size
}

impl ListRequest {
    /// SQL OFFSET for this page.
    pub fn offset(&self) -> (r: u32)
        requires
            offset_of(self.page, self.page_size) <= u32::MAX,
        ensures
            r == offset_of(self.page, self.page_size),
    {
        self.page.saturating_sub(1) * self.page_size
    }
}

/// A page of results.
#[derive(Debug, Clone)]
pub struct Page<T> {
    /// The items on this page.
    pub items: Vec<T>,
    /// 1-indexed current page number.
    pub page: u32,
    /// Items per page.
    pub page_size: u32,
    /// Total number of items across all pages.
    pub total_items: u64,
}

/// The number of pages `total` items fill at `size` per page: at least one,
/// at most `u32::MAX`.
pub open spec fn pages_for(total: u64, size: u32) -> u32 {
    if total == 0 {
        1
    } else {
        let pages = (total + size - 1) / (size as int);
        if pages <= u32::MAX {
            pages as u32
        } else {
            u32::MAX
        }
    }
}

impl<T> Page<T> {
    /// Total number of pages.
    pub fn total_pages(&self) -> (r: u32)
        requires
            self.total_items > 0 ==> self.page_size > 0,
        ensures
            r == pages_for(self.total_items, self.page_size),
    {
        if self.total_items == 0 {
            return 1;
        }
        let size = self.page_size as u64;
        let q = self.total_items / size;
        let rem = self.total_items % size;
        proof {
            let t = self.total_items as int;
            let s = size as int;
            assert(rem != 0 ==> q < u64::MAX) by (nonlinear_arith)
                requires
                    s > 0,
                    0 <= t <= u64::MAX,
                    q == t / s,
                    rem == t % s,
            ;
        }
        let pages = if rem != 0 {
            q + 1
        } else {
            q
        };
        proof {
            let t = self.total_items as int;
            let s = size as int;
            assert(pages == (t + s - 1) / s) by (nonlinear_arith)
                requires
                    s > 0,
                    t >= 0,
                    pages == t / s + (if t % s != 0 {
                        1int
                    } else {
                        0int
                    }),
            ;
        }
        if pages <= 4294967295 {
            pages as u32
        } else {
            4294967295
        }
    }

    /// Whether there is a next page.
    pub fn has_next(&self) -> (r: bool)
        requires
            self.total_items > 0 ==> self.page_size > 0,
        ensures
            r == (self.page < pages_for(self.total_items, self.page_size)),
    {
        self.page < self.total_pages()
    }

    /// Whether there is a previous page.
    pub fn has_prev(&self) -> (r: bool)
        ensures
            r == (self.page > 1),
    {
        self.page > 1
    }
}

/// There is always at least one page, and unless the count saturates the
/// pages hold every item with less than one page to spare.
pub proof fn law_pages_cover_items(total: u64, size: u32)
    requires
        total > 0 ==> size > 0,
    ensures
        pages_for(total, size) >= 1,
        total > 0 && pages_for(total, size) < u32::MAX ==> pages_for(total, size) as int * size
            >= total && (pages_for(total, size) - 1) as int * size < total,
{
    if total > 0 {
        let t = total as int;
        let s = size as int;
        let p = (t + s - 1) / s;
        assert(p >= 1 && p * s >= t && (p - 1) * s < t) by (nonlinear_arith)
            requires
                s > 0,
                t > 0,
                p == (t + s - 1) / s,
        ;
    }
}

} // verus!
