use entity_access::page::{Page, REQUEST_PER_PAGE, WINDOW_PER_PAGE};

fn request(page: Option<i64>, per_page: Option<i64>, filtered: Option<i64>) -> Page<u8> {
    Page {
        page,
        per_page,
        filtered_count: filtered,
        total_count: Some(1000),
        search: Some("alice".to_string()),
        filters: Some("[]".to_string()),
        orders: Some("[]".to_string()),
        records: Some(vec![1, 2, 3]),
    }
}

#[test]
fn limit_with_no_rows_shows_first_page() {
    let r = request(Some(5), Some(10), Some(0));
    assert_eq!(r.limit(), (1, 10, 0));
}

#[test]
fn limit_inside_the_range_keeps_the_page() {
    let r = request(Some(3), Some(10), Some(95));
    assert_eq!(r.limit(), (3, 10, 20));
}

#[test]
fn limit_clamps_to_the_last_page() {
    let r = request(Some(11), Some(10), Some(95));
    assert_eq!(r.limit(), (10, 10, 90));
    let r = request(Some(10), Some(10), Some(100));
    assert_eq!(r.limit(), (10, 10, 90));
    let r = request(Some(11), Some(10), Some(101));
    assert_eq!(r.limit(), (11, 10, 100));
}

#[test]
fn limit_defaults_page_and_page_size() {
    let r = request(None, None, Some(23));
    assert_eq!(r.limit(), (1, WINDOW_PER_PAGE, 0));
    let r = request(Some(0), Some(0), Some(23));
    assert_eq!(r.limit(), (1, 5, 0));
    let r = request(Some(-4), Some(-1), Some(23));
    assert_eq!(r.limit(), (1, 5, 0));
    let r = request(Some(9), None, Some(23));
    assert_eq!(r.limit(), (5, 5, 20));
}

#[test]
fn limit_without_a_count_or_with_a_negative_one() {
    let r = request(Some(4), Some(10), None);
    assert_eq!(r.limit(), (1, 10, 0));
    let r = request(Some(4), Some(10), Some(-15));
    assert_eq!(r.limit(), (1, 10, 0));
}

#[test]
fn limit_at_the_largest_values() {
    let r = request(Some(i64::MAX), Some(1), Some(i64::MAX));
    assert_eq!(r.limit(), (i64::MAX, 1, i64::MAX - 1));
    let r = request(Some(i64::MAX), Some(i64::MAX), Some(i64::MAX));
    assert_eq!(r.limit(), (1, i64::MAX, 0));
    let r = request(Some(2), Some(i64::MAX - 1), Some(i64::MAX));
    assert_eq!(r.limit(), (2, i64::MAX - 1, i64::MAX - 1));
}

#[test]
fn request_clears_counts_and_normalises() {
    let r = request(Some(0), None, Some(40)).request();
    assert_eq!(r.page, Some(1));
    assert_eq!(r.per_page, Some(REQUEST_PER_PAGE));
    assert_eq!(r.per_page, Some(10));
    assert_eq!(r.filtered_count, None);
    assert_eq!(r.total_count, None);
    assert_eq!(r.search, Some("alice".to_string()));
    assert_eq!(r.filters, Some("[]".to_string()));
    assert_eq!(r.orders, Some("[]".to_string()));
    assert_eq!(r.records, Some(vec![1, 2, 3]));
}

#[test]
fn request_keeps_a_valid_page_and_page_size() {
    let r = request(Some(7), Some(25), None).request();
    assert_eq!(r.page, Some(7));
    assert_eq!(r.per_page, Some(25));
}

#[test]
fn response_strips_the_raw_query() {
    let r = request(Some(2), Some(10), Some(40)).response();
    assert_eq!(r.search, None);
    assert_eq!(r.filters, None);
    assert_eq!(r.orders, None);
    assert_eq!(r.page, Some(2));
    assert_eq!(r.per_page, Some(10));
    assert_eq!(r.filtered_count, Some(40));
    assert_eq!(r.total_count, Some(1000));
    assert_eq!(r.records, Some(vec![1, 2, 3]));
}

#[test]
fn search_text_or_empty() {
    assert_eq!(request(None, None, None).search(), "alice");
    let blank: Page<u8> = Page::default();
    assert_eq!(blank.search(), "");
    assert_eq!(blank.page, None);
    assert_eq!(blank.records, None);
}

#[test]
fn floor_is_the_callers_choice() {
    let r = request(None, None, Some(100));
    assert_eq!(r.window(25), (1, 25, 0));
    let r = request(Some(9), Some(0), Some(100));
    assert_eq!(r.window(25), (4, 25, 75));
    assert_eq!(r.window(1), (9, 1, 8));
    let r = request(Some(2), Some(7), Some(100)).normalize(3);
    assert_eq!(r.page, Some(2));
    assert_eq!(r.per_page, Some(7));
    let r = request(Some(-2), Some(-7), Some(100)).normalize(3);
    assert_eq!(r.page, Some(1));
    assert_eq!(r.per_page, Some(3));
    assert_eq!(r.filtered_count, None);
    assert_eq!(r.total_count, None);
}
