//! Pagination and navigation view models.

use vstd::prelude::*;

use crate::text::{chars_of, dec, lemma_dec_digits, lemma_replace_char_absent, owned, push_str, push_u64, replace_char, replace_chars, string_from_chars};
use crate::web::event::EventSummary;
use crate::web::filter::{opt_text, EventFilter};
use crate::web::listing::{opposite, pages_for, EventSortKey, Page, SortDirection};
use crate::web::users::PasswdTable;
use crate::web::view::{argv_of, is_summary_view, session_cuttable, EventSummaryView};

verus! {

/// Wraps a `Page<EventSummary>` with presentation-ready view models.
#[derive(Debug)]
pub struct Paginated {
    /// Formatted event rows.
    pub items: Vec<EventSummaryView>,
    /// Current page (1-indexed).
    pub page: u32,
    /// Items per page.
    pub page_size: u32,
    /// Total items across all pages.
    pub total_items: u64,
    /// Total number of pages.
    pub total_pages: u32,
    /// Whether there is a previous page.
    pub has_prev: bool,
    /// Whether there is a next page.
    pub has_next: bool,
    /// Filter parse warnings.
    pub warnings: Vec<String>,
}

/// Whether a page can be shown: its page count is defined and every
/// session ID can be cut for the list column.
pub open spec fn page_showable(page: Page<EventSummary>) -> bool {
    &&& page.total_items > 0 ==> page.page_size > 0
    &&& forall|i: int| 0 <= i < page.items@.len() ==> session_cuttable(#[trigger] page.items@[i])
}

/// Whether `r` presents `page` (with `warnings`), UIDs resolved by `users`.
pub open spec fn presents(r: Paginated, page: Page<EventSummary>, users: Seq<(u32, Seq<char>)>) -> bool {
    &&& r.items@.len() == page.items@.len()
    &&& forall|i: int|
        0 <= i < r.items@.len() ==> is_summary_view(
            #[trigger] r.items@[i],
            page.items@[i],
            argv_of(opt_text(page.items@[i].argv)),
            users,
        )
    &&& r.page == page.page
    &&& r.page_size == page.page_size
    &&& r.total_items == page.total_items
    &&& r.total_pages == pages_for(page.total_items, page.page_size)
    &&& r.has_prev == (page.page > 1)
    &&& r.has_next == (page.page < pages_for(page.total_items, page.page_size))
}

impl Paginated {
    /// Create from a domain Page of `EventSummary`, resolving UIDs through
    /// `users`.
    pub fn from_page(page: &Page<EventSummary>, users: &PasswdTable) -> (r: Self)
        requires
            page_showable(*page),
        ensures
            presents(r, *page, users@),
            r.warnings@.len() == 0,
    {
        let mut items: Vec<EventSummaryView> = Vec::new();
        let mut i: usize = 0;
        while i < page.items.len()
            invariant
                i <= page.items@.len(),
                items@.len() == i,
                page_showable(*page),
                forall|k: int|
                    0 <= k < i ==> is_summary_view(
                        #[trigger] items@[k],
                        page.items@[k],
                        argv_of(opt_text(page.items@[k].argv)),
                        users@,
                    ),
            decreases page.items.len() - i,
        {
            assert(session_cuttable(page.items@[i as int]));
            items.push(EventSummaryView::from_summary(&page.items[i], users));
            i = i + 1;
        }
        Paginated {
            items,
            page: page.page,
            page_size: page.page_size,
            total_items: page.total_items,
            total_pages: page.total_pages(),
            has_prev: page.has_prev(),
            has_next: page.has_next(),
            warnings: Vec::new(),
        }
    }

    /// Create from a domain Page with filter warnings.
    pub fn from_page_with_warnings(page: &Page<EventSummary>, warnings: Vec<String>, users: &PasswdTable) -> (r: Self)
        requires
            page_showable(*page),
        ensures
            presents(r, *page, users@),
            r.warnings@ == warnings@,
    {
        let mut p = Self::from_page(page, users);
        p.warnings = warnings;
        p
    }
}

/// The query parameter name of a sort key.
pub open spec fn sort_key_name(key: EventSortKey) -> Seq<char> {
    match key {
        EventSortKey::Timestamp => "timestamp"@,
        EventSortKey::Comm => "comm"@,
        EventSortKey::ExitCode => "exit_code"@,
    }
}

/// The query parameter name of a direction.
pub open spec fn dir_name(dir: SortDirection) -> Seq<char> {
    match dir {
        SortDirection::Asc => "asc"@,
        SortDirection::Desc => "desc"@,
    }
}

/// A query value with `%`, space, `&`, `=` and `#` percent-encoded.
pub open spec fn url_encoded(s: Seq<char>) -> Seq<char> {
    replace_char(
        replace_char(
            replace_char(replace_char(replace_char(s, '%', "%25"@), ' ', "%20"@), '&', "%26"@),
            '=',
            "%3D"@,
        ),
        '#',
        "%23"@,
    )
}

/// The replacement texts of URL encoding hold none of the characters that
/// would end the query value.
proof fn lemma_codes_are_plain(c: char)
    requires
        c == ' ' || c == '&' || c == '=' || c == '#',
    ensures
        !"%25"@.contains(c),
        !"%20"@.contains(c),
        !"%26"@.contains(c),
        !"%3D"@.contains(c),
        !"%23"@.contains(c),
{
    reveal_strlit("%25");
    reveal_strlit("%20");
    reveal_strlit("%26");
    reveal_strlit("%3D");
    reveal_strlit("%23");
    assert forall|code: Seq<char>|
        code == "%25"@ || code == "%20"@ || code == "%26"@ || code == "%3D"@ || code == "%23"@
        implies !code.contains(c) by {
        if code.contains(c) {
            let k = choose|k: int| 0 <= k < code.len() && code[k] == c;
            assert(k == 0 || k == 1 || k == 2);
        }
    }
}

/// An encoded query cannot add or cut URL parameters: it holds no space,
/// `&`, `=` or `#`, so it stays one value of `q`.
pub proof fn law_encoded_query_stays_one_value(query: Seq<char>)
    ensures
        !url_encoded(query).contains(' '),
        !url_encoded(query).contains('&'),
        !url_encoded(query).contains('='),
        !url_encoded(query).contains('#'),
{
    let a = replace_char(query, '%', "%25"@);
    let b = replace_char(a, ' ', "%20"@);
    let c = replace_char(b, '&', "%26"@);
    let d = replace_char(c, '=', "%3D"@);
    lemma_codes_are_plain(' ');
    lemma_codes_are_plain('&');
    lemma_codes_are_plain('=');
    lemma_codes_are_plain('#');
    lemma_replace_char_absent(a, ' ', "%20"@, ' ');
    lemma_replace_char_absent(b, '&', "%26"@, ' ');
    lemma_replace_char_absent(c, '=', "%3D"@, ' ');
    lemma_replace_char_absent(d, '#', "%23"@, ' ');
    lemma_replace_char_absent(b, '&', "%26"@, '&');
    lemma_replace_char_absent(c, '=', "%3D"@, '&');
    lemma_replace_char_absent(d, '#', "%23"@, '&');
    lemma_replace_char_absent(c, '=', "%3D"@, '=');
    lemma_replace_char_absent(d, '#', "%23"@, '=');
    lemma_replace_char_absent(d, '#', "%23"@, '#');
}

/// The list URL for a page, page size, sort, direction and query.
pub open spec fn list_url(page: u32, page_size: u32, sort: EventSortKey, dir: SortDirection, query: Seq<char>) -> Seq<char> {
    "/api/v1/events?page="@ + dec(page as nat) + "&page_size="@ + dec(page_size as nat) + "&sort="@
        + sort_key_name(sort) + "&dir="@ + dir_name(dir) + "&q="@ + url_encoded(query)
}

/// The direction a column header link sorts by: the active column flips
/// its direction, another column starts descending.
pub open spec fn next_direction(active: EventSortKey, dir: SortDirection, key: EventSortKey) -> SortDirection {
    if key == active {
        opposite(dir)
    } else {
        SortDirection::Desc
    }
}

/// The marker after a column header: an up or down triangle on the active
/// column, nothing on the others.
pub open spec fn indicator(active: EventSortKey, dir: SortDirection, key: EventSortKey) -> Seq<char> {
    if key == active {
        match dir {
            SortDirection::Asc => seq![' ', '\u{25b2}'],
            SortDirection::Desc => seq![' ', '\u{25bc}'],
        }
    } else {
        Seq::empty()
    }
}

/// Generates URL query strings for pagination and sorting navigation.
///
/// Used in templates to build `data-on:click` URLs.
#[derive(Debug)]
pub struct ListNavigator {
    /// Current filter query string (raw `q` param value), or empty.
    pub query: String,
    /// Current sort key.
    pub sort: EventSortKey,
    /// Current sort direction.
    pub direction: SortDirection,
    /// Current page size.
    pub page_size: u32,
}

/// The query parameter name of a sort key.
pub fn sort_key_str(key: EventSortKey) -> (r: &'static str)
    ensures
        r@ == sort_key_name(key),
{
    match key {
        EventSortKey::Timestamp => "timestamp",
        EventSortKey::Comm => "comm",
        EventSortKey::ExitCode => "exit_code",
    }
}

/// The query parameter name of a direction.
pub fn dir_str(dir: SortDirection) -> (r: &'static str)
    ensures
        r@ == dir_name(dir),
{
    match dir {
        SortDirection::Asc => "asc",
        SortDirection::Desc => "desc",
    }
}

/// Minimal URL encoding for the query parameter value.
pub fn urlencoded(s: &str) -> (r: String)
    ensures
        r@ == url_encoded(s@),
{
    let v = chars_of(s);
    let a = replace_chars(&v, '%', "%25");
    let b = replace_chars(&a, ' ', "%20");
    let c = replace_chars(&b, '&', "%26");
    let d = replace_chars(&c, '=', "%3D");
    let e = replace_chars(&d, '#', "%23");
    string_from_chars(&e)
}

/// The list URL for the given parameters.
fn build_list_url(page: u32, page_size: u32, sort: EventSortKey, dir: SortDirection, query: &str) -> (r: String)
    ensures
        r@ == list_url(page, page_size, sort, dir, query@),
{
    let mut s = owned("/api/v1/events?page=");
    push_u64(&mut s, page as u64);
    push_str(&mut s, "&page_size=");
    push_u64(&mut s, page_size as u64);
    push_str(&mut s, "&sort=");
    push_str(&mut s, sort_key_str(sort));
    push_str(&mut s, "&dir=");
    push_str(&mut s, dir_str(dir));
    push_str(&mut s, "&q=");
    let q = urlencoded(query);
    push_str(&mut s, q.as_str());
    s
}

impl ListNavigator {
    /// Build from current request parameters.
    pub fn new(filter: &EventFilter, sort: EventSortKey, direction: SortDirection, page_size: u32) -> (r: Self)
        ensures
            r.query@ == (match filter.raw {
                Some(q) => q@,
                None => Seq::<char>::empty(),
            }),
            r.sort == sort,
            r.direction == direction,
            r.page_size == page_size,
    {
        let query = match &filter.raw {
            Some(q) => q.clone(),
            None => String::new(),
        };
        ListNavigator { query, sort, direction, page_size }
    }

    /// URL query string for a specific page (preserving current sort/filter).
    pub fn page_url(&self, page: u32) -> (r: String)
        ensures
            r@ == list_url(page, self.page_size, self.sort, self.direction, self.query@),
    {
        build_list_url(page, self.page_size, self.sort, self.direction, self.query.as_str())
    }

    /// URL query string for sorting by a column.
    ///
    /// If the column is already the active sort, toggles direction.
    /// Otherwise, sorts by the new column in descending order.
    pub fn sort_url(&self, key: EventSortKey) -> (r: String)
        ensures
            r@ == list_url(1, self.page_size, key, next_direction(self.sort, self.direction, key), self.query@),
    {
        let dir = if key == self.sort {
            self.direction.toggle()
        } else {
            SortDirection::Desc
        };
        build_list_url(1, self.page_size, key, dir, self.query.as_str())
    }

    /// Sort indicator for a column header: " \u{25b2}", " \u{25bc}", or "".
    pub fn sort_indicator(&self, key: EventSortKey) -> (r: &'static str)
        ensures
            r@ == indicator(self.sort, self.direction, key),
    {
        proof {
            reveal_strlit(" \u{25b2}");
            reveal_strlit(" \u{25bc}");
            reveal_strlit("");
        }
        if key == self.sort {
            match self.direction {
                SortDirection::Asc => " \u{25b2}",
                SortDirection::Desc => " \u{25bc}",
            }
        } else {
            ""
        }
    }

    /// Sort URL for the timestamp column.
    pub fn sort_url_timestamp(&self) -> (r: String)
        ensures
            r@ == list_url(
                1,
                self.page_size,
                EventSortKey::Timestamp,
                next_direction(self.sort, self.direction, EventSortKey::Timestamp),
                self.query@,
            ),
    {
        self.sort_url(EventSortKey::Timestamp)
    }

    /// Sort URL for the command column.
    pub fn sort_url_comm(&self) -> (r: String)
        ensures
            r@ == list_url(
                1,
                self.page_size,
                EventSortKey::Comm,
                next_direction(self.sort, self.direction, EventSortKey::Comm),
                self.query@,
            ),
    {
        self.sort_url(EventSortKey::Comm)
    }

    /// Sort URL for the exit code column.
    pub fn sort_url_exit_code(&self) -> (r: String)
        ensures
            r@ == list_url(
                1,
                self.page_size,
                EventSortKey::ExitCode,
                next_direction(self.sort, self.direction, EventSortKey::ExitCode),
                self.query@,
            ),
    {
        self.sort_url(EventSortKey::ExitCode)
    }

    /// Sort indicator for the timestamp column.
    pub fn sort_indicator_timestamp(&self) -> (r: &'static str)
        ensures
            r@ == indicator(self.sort, self.direction, EventSortKey::Timestamp),
    {
        self.sort_indicator(EventSortKey::Timestamp)
    }

    /// Sort indicator for the command column.
    pub fn sort_indicator_comm(&self) -> (r: &'static str)
        ensures
            r@ == indicator(self.sort, self.direction, EventSortKey::Comm),
    {
        self.sort_indicator(EventSortKey::Comm)
    }

    /// Sort indicator for the exit code column.
    pub fn sort_indicator_exit_code(&self) -> (r: &'static str)
        ensures
            r@ == indicator(self.sort, self.direction, EventSortKey::ExitCode),
    {
        self.sort_indicator(EventSortKey::ExitCode)
    }
}

/// Sorting by the active column twice returns to its first direction, and a
/// column that is not active always starts descending.
pub proof fn law_sort_toggle_roundtrip(active: EventSortKey, dir: SortDirection, key: EventSortKey)
    ensures
        next_direction(key, next_direction(key, dir, key), key) == dir,
        key != active ==> next_direction(active, dir, key) == SortDirection::Desc,
{
}

/// A column's sort link asks for ascending order exactly when the list is
/// already sorted by that column, descending; every other link asks for
/// descending order. So the comm link carries `sort=comm&dir=asc` exactly
/// when the list is sorted by comm, newest first.
pub proof fn law_sort_link_direction(active: EventSortKey, dir: SortDirection, key: EventSortKey, page_size: u32, query: Seq<char>)
    ensures
        (next_direction(active, dir, key) == SortDirection::Asc) <==> (key == active && dir
            == SortDirection::Desc),
        list_url(1, page_size, key, next_direction(active, dir, key), query) == "/api/v1/events?page="@
            + dec(1) + "&page_size="@ + dec(page_size as nat) + "&sort="@ + sort_key_name(key)
            + "&dir="@ + (if key == active && dir == SortDirection::Desc {
            "asc"@
        } else {
            "desc"@
        }) + "&q="@ + url_encoded(query),
{
}

/// Whether `t` occurs in `s` as a run of consecutive characters.
pub open spec fn occurs_in(t: Seq<char>, s: Seq<char>) -> bool {
    exists|p: int| 0 <= p && p + t.len() <= s.len() && #[trigger] s.subrange(p, p + t.len()) == t
}

/// In a comm sort link, the text `sort=comm&dir=` occurs in one place only:
/// right after the page size, where the link names its sort.
proof fn lemma_comm_marker_position(page_size: u32, dn: Seq<char>, e: Seq<char>, p: int)
    requires
        dn == "asc"@ || dn == "desc"@,
        !e.contains('&'),
        0 <= p,
        p + 14 <= ("/api/v1/events?page="@ + dec(1) + "&page_size="@ + dec(page_size as nat) + "&sort="@
            + "comm"@ + "&dir="@ + dn + "&q="@ + e).len(),
        ("/api/v1/events?page="@ + dec(1) + "&page_size="@ + dec(page_size as nat) + "&sort="@ + "comm"@
            + "&dir="@ + dn + "&q="@ + e).subrange(p, p + 14) == "sort=comm&dir="@,
    ensures
        p == 33 + dec(page_size as nat).len(),
{
    reveal_strlit("/api/v1/events?page=");
    reveal_strlit("&page_size=");
    reveal_strlit("&sort=");
    reveal_strlit("comm");
    reveal_strlit("&dir=");
    reveal_strlit("asc");
    reveal_strlit("desc");
    reveal_strlit("&q=");
    reveal_strlit("sort=comm&dir=");
    let d = dec(page_size as nat);
    let n = d.len() as int;
    lemma_dec_digits(page_size as nat);
    lemma_dec_digits(1);
    let url = "/api/v1/events?page="@ + dec(1) + "&page_size="@ + d + "&sort="@ + "comm"@ + "&dir="@ + dn
        + "&q="@ + e;
    let marker = "sort=comm&dir="@;
    assert(url[p + 9] == marker[9]);
    assert(marker[9] == '&');
    let i = p + 9;
    if i < 20 {
        assert(url[i] == "/api/v1/events?page="@[i]);
        assert(false);
    } else if i < 21 {
        assert(url[i] == dec(1)[i - 20]);
        assert(false);
    } else if i < 32 {
        if i > 21 {
            assert(url[i] == "&page_size="@[i - 21]);
            assert(false);
        }
        assert(url[p] == marker[0] && marker[0] == 's');
        assert(url[p] == "/api/v1/events?page="@[12]);
        assert(false);
    } else if i < 32 + n {
        assert(url[i] == d[i - 32]);
        assert(false);
    } else if i < 38 + n {
        if i > 32 + n {
            assert(url[i] == "&sort="@[i - 32 - n]);
            assert(false);
        }
        assert(url[p + 13] == marker[13] && marker[13] == '=');
        assert(url[p + 13] == "&sort="@[4]);
        assert(false);
    } else if i < 42 + n {
        assert(url[i] == "comm"@[i - 38 - n]);
        assert(false);
    } else if i < 47 + n {
        if i > 42 + n {
            assert(url[i] == "&dir="@[i - 42 - n]);
            assert(false);
        }
    } else if i < 47 + n + dn.len() {
        assert(url[i] == dn[i - 47 - n]);
        assert(false);
    } else if i < 50 + n + dn.len() {
        if i > 47 + n + dn.len() {
            assert(url[i] == "&q="@[i - 47 - n - dn.len()]);
            assert(false);
        }
        if dn.len() == 3 {
            assert(url[p + 4] == marker[4] && marker[4] == '=');
            assert(url[p + 4] == "&dir="@[3]);
        } else {
            assert(url[p] == marker[0] && marker[0] == 's');
            assert(url[p] == "&dir="@[0]);
        }
        assert(false);
    } else {
        assert(url[i] == e[i - 50 - n - dn.len()]);
        assert(e.contains('&'));
        assert(false);
    }
}

/// The comm column's sort link carries `sort=comm&dir=asc` exactly when the
/// list is already sorted by comm, descending, and `sort=comm&dir=desc`
/// exactly when it is not, whatever the page size and the query.
pub proof fn law_comm_link_marker(active: EventSortKey, dir: SortDirection, page_size: u32, query: Seq<char>)
    ensures
        occurs_in("sort=comm&dir=asc"@, list_url(1, page_size, EventSortKey::Comm, next_direction(active, dir, EventSortKey::Comm), query))
            <==> (active == EventSortKey::Comm && dir == SortDirection::Desc),
        occurs_in("sort=comm&dir=desc"@, list_url(1, page_size, EventSortKey::Comm, next_direction(active, dir, EventSortKey::Comm), query))
            <==> !(active == EventSortKey::Comm && dir == SortDirection::Desc),
{
    reveal_strlit("asc");
    reveal_strlit("desc");
    reveal_strlit("comm");
    reveal_strlit("sort=comm&dir=");
    reveal_strlit("sort=comm&dir=asc");
    reveal_strlit("sort=comm&dir=desc");
    reveal_strlit("/api/v1/events?page=");
    reveal_strlit("&page_size=");
    reveal_strlit("&sort=");
    reveal_strlit("&dir=");
    reveal_strlit("&q=");
    let nd = next_direction(active, dir, EventSortKey::Comm);
    let dn = dir_name(nd);
    let e = url_encoded(query);
    let d = dec(page_size as nat);
    let n = d.len() as int;
    law_encoded_query_stays_one_value(query);
    lemma_dec_digits(1);
    let url = list_url(1, page_size, EventSortKey::Comm, nd, query);
    assert(url == "/api/v1/events?page="@ + dec(1) + "&page_size="@ + d + "&sort="@ + "comm"@ + "&dir="@
        + dn + "&q="@ + e);
    let marker = "sort=comm&dir="@;
    let at = 33 + n;
    assert(url.subrange(at, at + 14 + dn.len()) =~= marker + dn);
    let asc = "sort=comm&dir=asc"@;
    let desc = "sort=comm&dir=desc"@;
    assert(asc =~= marker + "asc"@);
    assert(desc =~= marker + "desc"@);
    if occurs_in(asc, url) {
        let p = choose|p: int| 0 <= p && p + asc.len() <= url.len() && #[trigger] url.subrange(p, p + asc.len()) == asc;
        assert(url.subrange(p, p + 14) =~= marker);
        lemma_comm_marker_position(page_size, dn, e, p);
        assert(url[p + 14] == asc[14]);
        assert(url[at + 14] == dn[0]);
    }
    if occurs_in(desc, url) {
        let p = choose|p: int| 0 <= p && p + desc.len() <= url.len() && #[trigger] url.subrange(p, p + desc.len()) == desc;
        assert(url.subrange(p, p + 14) =~= marker);
        lemma_comm_marker_position(page_size, dn, e, p);
        assert(url[p + 14] == desc[14]);
        assert(url[at + 14] == dn[0]);
    }
    if dn == "asc"@ {
        assert(url.subrange(at, at + asc.len()) == asc);
    } else {
        assert(url.subrange(at, at + desc.len()) == desc);
    }
}

/// Two rows that show the same thing.
pub open spec fn same_row(a: EventSummaryView, b: EventSummaryView) -> bool {
    &&& a.id == b.id
    &&& a.timestamp@ == b.timestamp@
    &&& a.session_id_short@ == b.session_id_short@
    &&& a.session_id@ == b.session_id@
    &&& a.user@ == b.user@
    &&& a.comm@ == b.comm@
    &&& a.command_name@ == b.command_name@
    &&& a.command_dir@ == b.command_dir@
    &&& a.command_args@ == b.command_args@
    &&& a.command_full@ == b.command_full@
    &&& a.exit_code@ == b.exit_code@
    &&& a.exit_code_class@ == b.exit_code_class@
    &&& a.uid == b.uid
    &&& a.exit_code_raw == b.exit_code_raw
}

/// Two presentations that agree on everything but their warnings.
pub open spec fn same_but_warnings(a: Paginated, b: Paginated) -> bool {
    &&& a.items@.len() == b.items@.len()
    &&& forall|i: int| 0 <= i < a.items@.len() ==> same_row(#[trigger] a.items@[i], b.items@[i])
    &&& a.page == b.page
    &&& a.page_size == b.page_size
    &&& a.total_items == b.total_items
    &&& a.total_pages == b.total_pages
    &&& a.has_prev == b.has_prev
    &&& a.has_next == b.has_next
}

/// A page is presented one way only: `from_page_with_warnings` and
/// `from_page` (any two presentations of the same page with the same
/// accounts) agree on the rows, the page numbers and the neighbours, and
/// differ at most in the warnings.
pub proof fn law_warnings_are_all_that_differ(
    page: Page<EventSummary>,
    users: Seq<(u32, Seq<char>)>,
    a: Paginated,
    b: Paginated,
)
    requires
        presents(a, page, users),
        presents(b, page, users),
    ensures
        same_but_warnings(a, b),
{
    assert forall|i: int| 0 <= i < a.items@.len() implies same_row(#[trigger] a.items@[i], b.items@[i]) by {
        let s = page.items@[i];
        assert(is_summary_view(a.items@[i], s, argv_of(opt_text(s.argv)), users));
        assert(is_summary_view(b.items@[i], s, argv_of(opt_text(s.argv)), users));
    }
}

} // verus!
