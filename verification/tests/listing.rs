use shspectr::web::listing::{EventSortKey, ListRequest, Page, SortDirection};

#[test]
fn page_total_pages_basic() {
    let page: Page<()> = Page {
        items: vec![],
        page: 1,
        page_size: 25,
        total_items: 100,
    };
    assert_eq!(page.total_pages(), 4);
}

#[test]
fn page_total_pages_partial() {
    let page: Page<()> = Page {
        items: vec![],
        page: 1,
        page_size: 25,
        total_items: 101,
    };
    assert_eq!(page.total_pages(), 5, "101 items / 25 per page = 5 pages");
}

#[test]
fn page_total_pages_zero_items() {
    let page: Page<()> = Page {
        items: vec![],
        page: 1,
        page_size: 25,
        total_items: 0,
    };
    assert_eq!(page.total_pages(), 1, "zero items should still be 1 page");
}

#[test]
fn page_total_pages_exact() {
    let page: Page<()> = Page {
        items: vec![],
        page: 1,
        page_size: 10,
        total_items: 30,
    };
    assert_eq!(page.total_pages(), 3);
}

#[test]
fn page_has_next() {
    let page: Page<()> = Page {
        items: vec![],
        page: 1,
        page_size: 25,
        total_items: 50,
    };
    assert!(page.has_next());
}

#[test]
fn page_has_next_last_page() {
    let page: Page<()> = Page {
        items: vec![],
        page: 2,
        page_size: 25,
        total_items: 50,
    };
    assert!(!page.has_next(), "last page should not have next");
}

#[test]
fn page_has_prev() {
    let page: Page<()> = Page {
        items: vec![],
        page: 2,
        page_size: 25,
        total_items: 50,
    };
    assert!(page.has_prev());
}

#[test]
fn page_has_prev_first_page() {
    let page: Page<()> = Page {
        items: vec![],
        page: 1,
        page_size: 25,
        total_items: 50,
    };
    assert!(!page.has_prev(), "first page should not have prev");
}

#[test]
fn list_request_offset() {
    let req = ListRequest {
        page: 3,
        page_size: 25,
        ..ListRequest::default()
    };
    assert_eq!(req.offset(), 50, "page 3 with 25/page should offset 50");
}

#[test]
fn list_request_offset_page_one() {
    let req = ListRequest::default();
    assert_eq!(req.offset(), 0, "page 1 should offset 0");
}

#[test]
fn list_request_offset_page_zero() {
    let req = ListRequest {
        page: 0,
        page_size: 25,
        ..ListRequest::default()
    };
    assert_eq!(req.offset(), 0, "page 0 should saturate to offset 0");
}

#[test]
fn sort_direction_sql() {
    assert_eq!(SortDirection::Asc.as_sql(), "ASC");
    assert_eq!(SortDirection::Desc.as_sql(), "DESC");
}

#[test]
fn event_sort_key_sql_column() {
    assert_eq!(EventSortKey::Timestamp.as_sql_column(), "timestamp");
    assert_eq!(EventSortKey::Comm.as_sql_column(), "comm");
    assert_eq!(EventSortKey::ExitCode.as_sql_column(), "exit_code");
}

#[test]
fn sort_direction_toggles_both_ways() {
    assert_eq!(SortDirection::Asc.toggle(), SortDirection::Desc);
    assert_eq!(SortDirection::Desc.toggle(), SortDirection::Asc);
    assert_eq!(SortDirection::default(), SortDirection::Desc);
}

#[test]
fn list_request_defaults_to_newest_first() {
    let req = ListRequest::default();
    assert_eq!(req.page, 1);
    assert_eq!(req.page_size, 25);
    assert_eq!(req.sort, EventSortKey::Timestamp);
    assert_eq!(req.direction, SortDirection::Desc);
}

#[test]
fn page_total_pages_saturates() {
    let page: Page<()> = Page {
        items: vec![],
        page: 1,
        page_size: 1,
        total_items: u64::MAX,
    };
    assert_eq!(page.total_pages(), u32::MAX);
}
