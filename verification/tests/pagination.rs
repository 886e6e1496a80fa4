use rusty_replay::collector::Collector;
use rusty_replay::event::EventReportRequest;
use rusty_replay::listing::{event_matches, list_project_events, EventQuery};
use rusty_replay::pagination::{
    default_page, default_size, page_bounds, PageWindow, PaginatedResponse, PaginationResponse,
};
use rusty_replay::time::Timestamp;

fn at(nanos: u64) -> Timestamp {
    Timestamp { unix_nanos: nanos }
}

fn report(api_key: &str, message: &str, version: &str, reported: u64) -> EventReportRequest {
    EventReportRequest {
        message: message.to_string(),
        stacktrace: "at main (main.rs:1)".to_string(),
        app_version: version.to_string(),
        timestamp: at(reported),
        replay: None,
        environment: None,
        browser: None,
        os: None,
        user_agent: None,
        api_key: api_key.to_string(),
        user_id: None,
        additional_info: None,
    }
}

fn query(page: Option<u32>, page_size: Option<u32>) -> EventQuery {
    EventQuery { search: None, page, page_size, start_date: None, end_date: None }
}

fn filled(count: u64) -> Collector {
    let mut c = Collector::new();
    c.add_project(1, "key".to_string());
    c.add_project(2, "other".to_string());
    for i in 0..count {
        c.report_event(&report("key", &format!("failure {}", i), "1.0.0", i), at(1_000 + i)).unwrap();
    }
    c
}

#[test]
fn second_and_third_page_of_twenty_five_events() {
    let c = filled(25);
    let second = list_project_events(&c, 1, &query(Some(2), Some(10)));
    assert_eq!(second.content.len(), 10);
    assert_eq!(second.total_pages, 3);
    assert!(second.has_next);
    assert_eq!(second.page, 2);
    assert_eq!(second.page_size, 10);
    assert_eq!(second.total_elements, 25);
    assert_eq!(second.filtered_elements, 25);
    assert_eq!(second.content[0].message, "failure 14");
    assert_eq!(second.content[9].message, "failure 5");
    let third = list_project_events(&c, 1, &query(Some(3), Some(10)));
    assert_eq!(third.content.len(), 5);
    assert_eq!(third.total_pages, 3);
    assert!(!third.has_next);
    assert_eq!(third.content[0].message, "failure 4");
    assert_eq!(third.content[4].message, "failure 0");
    let fourth = list_project_events(&c, 1, &query(Some(4), Some(10)));
    assert!(fourth.content.is_empty());
    assert!(!fourth.has_next);
}

#[test]
fn listing_defaults_to_the_first_twenty() {
    let c = filled(25);
    let page = list_project_events(&c, 1, &query(None, None));
    assert_eq!(page.page, 1);
    assert_eq!(page.page_size, 20);
    assert_eq!(page.content.len(), 20);
    assert_eq!(page.total_pages, 2);
    assert!(page.has_next);
    assert_eq!(page.content[0].message, "failure 24");
    let zero = list_project_events(&c, 1, &query(Some(0), Some(500)));
    assert_eq!(zero.page, 1);
    assert_eq!(zero.page_size, 100);
    assert_eq!(zero.content.len(), 25);
    assert_eq!(zero.total_pages, 1);
    assert!(!zero.has_next);
}

#[test]
fn listing_shows_one_project_only() {
    let mut c = filled(3);
    c.report_event(&report("other", "elsewhere", "1.0.0", 0), at(5_000)).unwrap();
    let page = list_project_events(&c, 1, &query(None, None));
    assert_eq!(page.total_elements, 3);
    assert_eq!(page.content.len(), 3);
    let other = list_project_events(&c, 2, &query(None, None));
    assert_eq!(other.total_elements, 1);
    assert_eq!(other.content[0].message, "elsewhere");
    let nobody = list_project_events(&c, 3, &query(None, None));
    assert_eq!((nobody.total_elements, nobody.filtered_elements, nobody.total_pages), (0, 0, 0));
    assert!(nobody.content.is_empty());
    assert!(!nobody.has_next);
}

#[test]
fn listing_filters_by_search_term_and_time() {
    let mut c = Collector::new();
    c.add_project(1, "key".to_string());
    c.report_event(&report("key", "disk full", "1.0.0", 10), at(100)).unwrap();
    c.report_event(&report("key", "timeout", "2.0.0-disk", 20), at(200)).unwrap();
    c.report_event(&report("key", "timeout", "1.0.0", 30), at(300)).unwrap();
    let mut q = query(None, None);
    q.search = Some("disk".to_string());
    let found = list_project_events(&c, 1, &q);
    assert_eq!(found.total_elements, 3);
    assert_eq!(found.filtered_elements, 2);
    assert_eq!(found.total_pages, 1);
    let versions: Vec<&str> = found.content.iter().map(|e| e.app_version.as_str()).collect();
    assert_eq!(versions, vec!["2.0.0-disk", "1.0.0"]);
    q.search = Some("main.rs".to_string());
    assert_eq!(list_project_events(&c, 1, &q).filtered_elements, 3);
    q.search = Some("".to_string());
    assert_eq!(list_project_events(&c, 1, &q).filtered_elements, 3);
    q.search = Some("Disk".to_string());
    assert_eq!(list_project_events(&c, 1, &q).filtered_elements, 0);
    let mut range = query(None, None);
    range.start_date = Some(at(20));
    assert_eq!(list_project_events(&c, 1, &range).filtered_elements, 2);
    range.end_date = Some(at(20));
    let exact = list_project_events(&c, 1, &range);
    assert_eq!(exact.filtered_elements, 1);
    assert_eq!(exact.content[0].app_version, "2.0.0-disk");
    range.start_date = Some(at(21));
    assert_eq!(list_project_events(&c, 1, &range).filtered_elements, 0);
    assert!(event_matches(c.event(0), 1, &query(None, None)));
    assert!(!event_matches(c.event(0), 2, &query(None, None)));
}

#[test]
fn page_reports_pages_and_followers() {
    let window = PageWindow::from_query(Some(2), Some(10));
    assert_eq!(window.offset(), 10);
    let page = PaginatedResponse::new(vec![0u8; 10], window, 40, 25);
    assert_eq!((page.total_pages, page.has_next), (3, true));
    assert_eq!((page.total_elements, page.filtered_elements), (40, 25));
    let exact = PaginatedResponse::new(vec![0u8; 10], window, 20, 20);
    assert_eq!((exact.total_pages, exact.has_next), (2, false));
    let over = PaginatedResponse::new(vec![0u8; 1], window, 21, 21);
    assert_eq!((over.total_pages, over.has_next), (3, true));
    let empty = PaginatedResponse::new(Vec::<u8>::new(), PageWindow::from_query(None, None), 0, 0);
    assert_eq!((empty.total_pages, empty.has_next, empty.page, empty.page_size), (0, false, 1, 20));
    let hollow = PageWindow::from_query(Some(1), Some(0));
    let none = PaginatedResponse::new(Vec::<u8>::new(), hollow, 5, 5);
    assert_eq!((none.total_pages, none.has_next), (u32::MAX, true));
    let nothing = PaginatedResponse::new(Vec::<u8>::new(), hollow, 0, 0);
    assert_eq!((nothing.total_pages, nothing.has_next), (0, false));
    let huge = PaginatedResponse::new(Vec::<u8>::new(), PageWindow::from_query(Some(1), Some(1)), 0, u64::MAX);
    assert_eq!(huge.total_pages, u32::MAX);
    let far = PageWindow::from_query(Some(u32::MAX), Some(100));
    assert_eq!(far.offset(), 4_294_967_294 * 100);
}

#[test]
fn page_bounds_stay_within_the_rows() {
    let w = |p, s| PageWindow::from_query(Some(p), Some(s));
    assert_eq!(page_bounds(w(1, 10), 25), (0, 10));
    assert_eq!(page_bounds(w(2, 10), 25), (10, 20));
    assert_eq!(page_bounds(w(3, 10), 25), (20, 25));
    assert_eq!(page_bounds(w(4, 10), 25), (25, 25));
    assert_eq!(page_bounds(w(1, 0), 25), (0, 0));
    assert_eq!(page_bounds(w(1, 10), 0), (0, 0));
    assert_eq!(page_bounds(w(u32::MAX, 100), 7), (7, 7));
}

#[test]
fn transaction_pages_know_first_and_last() {
    let first = PaginationResponse::new(vec![1, 2, 3], 1, 10, 25);
    assert_eq!(first.total_pages, 3);
    assert!(first.is_first);
    assert!(!first.is_last);
    assert_eq!((first.page, first.size, first.total_elements), (1, 10, 25));
    assert_eq!(first.content, vec![1, 2, 3]);
    let last = PaginationResponse::new(Vec::<i32>::new(), 3, 10, 25);
    assert!(!last.is_first);
    assert!(last.is_last);
    let beyond = PaginationResponse::new(Vec::<i32>::new(), 9, 10, 30);
    assert_eq!(beyond.total_pages, 3);
    assert!(beyond.is_last);
    let empty = PaginationResponse::new(Vec::<i32>::new(), 1, 10, 0);
    assert_eq!(empty.total_pages, 0);
    assert!(empty.is_first && empty.is_last);
    let single = PaginationResponse::new(Vec::<i32>::new(), 1, 1, 1);
    assert_eq!(single.total_pages, 1);
    let wide = PaginationResponse::new(Vec::<i32>::new(), 1, 1, i64::MAX);
    assert_eq!(wide.total_pages, i32::MAX);
    let big = PaginationResponse::new(Vec::<i32>::new(), 1, i32::MAX, 1 << 40);
    assert_eq!(big.total_pages, 513);
    let full = PaginationResponse::new(Vec::<i32>::new(), 1, i32::MAX, i64::MAX);
    assert_eq!(full.total_pages, i32::MAX);
    assert_eq!(default_page(), 1);
    assert_eq!(default_size(), 10);
}

#[test]
fn deleted_events_are_not_listed() {
    let mut row = rusty_replay::event::EventRow::from_error_event(
        &report("key", "gone", "1", 5),
        1,
        1,
        1,
        "h".to_string(),
        at(9),
    );
    assert!(event_matches(&row, 1, &query(None, None)));
    row.soft_delete(1, at(10));
    assert!(!event_matches(&row, 1, &query(None, None)));
}

#[test]
fn transaction_pages_are_defined_for_every_size_and_count() {
    let pages = |size: i32, total: i64| PaginationResponse::new(Vec::<i32>::new(), 1, size, total).total_pages;
    assert_eq!(pages(0, 0), 0);
    assert_eq!(pages(0, 7), i32::MAX);
    assert_eq!(pages(0, -7), i32::MIN);
    assert_eq!(pages(3, 10), 4);
    assert_eq!(pages(3, 9), 3);
    assert_eq!(pages(-3, 10), -3);
    assert_eq!(pages(3, -10), -3);
    assert_eq!(pages(-3, -10), 4);
    assert_eq!(pages(-3, -9), 3);
    assert_eq!(pages(-3, 0), 0);
    assert_eq!(pages(-1, i64::MAX), i32::MIN);
    assert_eq!(pages(1, i64::MIN), i32::MIN);
    assert_eq!(pages(-1, i64::MIN), i32::MAX);
    assert_eq!(pages(i32::MIN, i64::MIN), i32::MAX);
    assert_eq!(pages(i32::MIN, 1), 0);
    assert_eq!(pages(i32::MAX, -1), 0);
    let negative = PaginationResponse::new(Vec::<i32>::new(), 1, -3, 10);
    assert!(negative.is_first);
    assert!(negative.is_last);
    let hollow = PaginationResponse::new(Vec::<i32>::new(), 2, 0, 5);
    assert!(!hollow.is_first);
    assert!(!hollow.is_last);
}
