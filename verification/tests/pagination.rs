use canvas_tui::models::PaginationLinks;
use canvas_tui::pager::PageFetch;
use canvas_tui::pagination::parse_link_header;

#[test]
fn link_header_basic_next_and_last() {
    let h = "<https://api.example.com/courses?page=2>; rel=\"next\", <https://api.example.com/courses?page=9>; rel=\"last\"";
    let links = parse_link_header(Some(h));
    assert_eq!(links.next.as_deref(), Some("https://api.example.com/courses?page=2"));
    assert_eq!(links.last.as_deref(), Some("https://api.example.com/courses?page=9"));
    assert_eq!(links.prev, None);
    assert_eq!(links.first, None);
    assert_eq!(links.current, None);
}

#[test]
fn link_header_all_five_relations() {
    let h = "<u1>; rel=\"current\", <u2>; rel=\"next\", <u3>; rel=\"prev\", <u4>; rel=\"first\", <u5>; rel=\"last\"";
    let links = parse_link_header(Some(h));
    assert_eq!(links.current.as_deref(), Some("u1"));
    assert_eq!(links.next.as_deref(), Some("u2"));
    assert_eq!(links.prev.as_deref(), Some("u3"));
    assert_eq!(links.first.as_deref(), Some("u4"));
    assert_eq!(links.last.as_deref(), Some("u5"));
}

#[test]
fn link_header_unknown_rel_is_ignored() {
    let h = "<u1>; rel=\"mystery\", <u2>; rel=\"next\"";
    let links = parse_link_header(Some(h));
    assert_eq!(links.next.as_deref(), Some("u2"));
    assert_eq!(links.current, None);
}

#[test]
fn link_header_missing_rel_is_ignored() {
    let h = "<u1>, <u2>; rel=\"next\"";
    let links = parse_link_header(Some(h));
    assert_eq!(links.next.as_deref(), Some("u2"));
    assert_eq!(links.current, None);
    assert_eq!(links.first, None);
}

#[test]
fn link_header_later_entry_wins() {
    let h = "<old>; rel=\"next\", <new>; rel=\"next\"";
    let links = parse_link_header(Some(h));
    assert_eq!(links.next.as_deref(), Some("new"));
}

#[test]
fn link_header_absent_yields_no_links() {
    let links = parse_link_header(None);
    assert_eq!(links.next, None);
    assert_eq!(links.prev, None);
    assert_eq!(links.current, None);
    assert_eq!(links.first, None);
    assert_eq!(links.last, None);
}

#[test]
fn link_header_empty_string_yields_no_links() {
    let links = parse_link_header(Some(""));
    assert_eq!(links.next, None);
}

#[test]
fn link_header_tolerates_spaces_and_quotes() {
    let h = "  <https://x/2> ;  rel=\"next\"  ";
    let links = parse_link_header(Some(h));
    assert_eq!(links.next.as_deref(), Some("https://x/2"));
}

#[test]
fn pagination_links_empty_constructor() {
    let links = PaginationLinks::empty();
    assert_eq!(links.next, None);
    assert_eq!(links.last, None);
}

#[test]
fn fetch_all_concatenates_three_pages_in_order() {
    // pages 1..N-1 carry a next link, page N does not: the machine takes
    // all items in order and makes exactly N page requests.
    let mut fetch: PageFetch<u64> = PageFetch::begin(String::from("https://api/x?page=1"));
    assert!(!fetch.is_done());
    assert_eq!(fetch.requests, 0);

    fetch.on_page(vec![1, 2, 3], Some(String::from("https://api/x?page=2")));
    assert!(!fetch.is_done());
    fetch.on_page(vec![4, 5], Some(String::from("https://api/x?page=3")));
    assert!(!fetch.is_done());
    fetch.on_page(vec![6], None);
    assert!(fetch.is_done());

    assert_eq!(fetch.requests, 3);
    let items = fetch.into_items();
    assert_eq!(items, vec![1, 2, 3, 4, 5, 6]);
}

#[test]
fn fetch_one_page_without_next() {
    let mut fetch: PageFetch<u64> = PageFetch::begin(String::from("https://api/only"));
    fetch.on_page(vec![], None);
    assert!(fetch.is_done());
    assert_eq!(fetch.requests, 1);
    assert_eq!(fetch.into_items(), Vec::<u64>::new());
}

#[test]
fn next_request_accepts_a_well_formed_url() {
    let fetch: PageFetch<u64> = PageFetch::begin(String::from("https://api.example.com/courses?page=2"));
    let r = fetch.next_request();
    assert_eq!(r.unwrap().as_str(), "https://api.example.com/courses?page=2");
}

#[test]
fn next_request_refuses_a_malformed_url() {
    let fetch: PageFetch<u64> = PageFetch::begin(String::from("not a url at all"));
    let r = fetch.next_request();
    assert!(r.is_err());
}
