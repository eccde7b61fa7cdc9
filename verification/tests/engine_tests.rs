use search::engine::{page_len, search_params, DEFAULT_PAGE_SIZE};
use search::Search;

#[test]
fn defaults_apply_only_where_nothing_is_named() {
    assert_eq!(search_params(None, None, 42), (DEFAULT_PAGE_SIZE, 42));
    assert_eq!(search_params(Some(25), None, 42), (25, 42));
    assert_eq!(search_params(None, Some(7), 42), (100, 7));
    assert_eq!(search_params(Some(25), Some(7), 42), (25, 7));
}

#[test]
fn windows_start_at_page_times_size() {
    let s = Search::new("name:Beta", 10, 500);
    assert_eq!(s.results_window(0), Some((0, 10, 500)));
    assert_eq!(s.results_window(2), Some((20, 10, 500)));
    assert_eq!(s.results_window(49), Some((490, 10, 500)));
}

#[test]
fn oversized_windows_are_refused() {
    let s = Search::new("q", u32::MAX, 500);
    assert_eq!(s.results_window(0), Some((0, u32::MAX, 500)));
    assert_eq!(s.results_window(2), None);
}

#[test]
fn updates_replace_the_query() {
    let mut s = Search::new("old", 10, 100);
    s.update("new");
    assert_eq!(s.query().as_str(), "new");
}

#[test]
fn failed_updates_keep_the_prior_query() {
    let mut s = Search::new("good", 10, 100);
    assert!(!s.update_parsed("bro(ken", false));
    assert_eq!(s.query().as_str(), "good");
    assert!(s.update_parsed("better", true));
    assert_eq!(s.query().as_str(), "better");
}

#[test]
fn pages_partition_the_match_list() {
    // Ten matches in pages of three: 3, 3, 3, 1, then empty.
    assert_eq!(page_len(10, 3, 0), 3);
    assert_eq!(page_len(10, 3, 1), 3);
    assert_eq!(page_len(10, 3, 2), 3);
    assert_eq!(page_len(10, 3, 3), 1);
    assert_eq!(page_len(10, 3, 4), 0);
    assert_eq!(page_len(10, 3, 1000), 0);
}

#[test]
fn empty_stores_have_only_empty_pages() {
    assert_eq!(page_len(0, 100, 0), 0);
    assert_eq!(page_len(0, 100, 1), 0);
}

#[test]
fn exact_multiples_leave_no_partial_page() {
    assert_eq!(page_len(9, 3, 2), 3);
    assert_eq!(page_len(9, 3, 3), 0);
}
