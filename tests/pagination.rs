use ghcrawl::github_api::{Occurrence, OccurrenceQuery, Page};
use ghcrawl::pagination::{next_page, Paginator, Step, MAX_PAGES, PER_PAGE};

fn code_query() -> OccurrenceQuery<'static> {
    OccurrenceQuery {
        repo: "owner/name",
        path: None,
        filename: None,
        lang: "c",
        token: "FILE",
    }
}

/// Drives a cursor against `server`, which answers a page number with the
/// items of that page; returns the items in order and the pages fetched.
fn drain<Q, T>(mut cursor: Paginator<Q, T>, server: impl Fn(usize) -> Vec<T>) -> (Vec<T>, Vec<usize>) {
    let mut items = Vec::new();
    let mut fetched = Vec::new();
    loop {
        if let Some(item) = cursor.next_item() {
            items.push(item);
        } else if let Some(page) = cursor.page_to_fetch() {
            fetched.push(page);
            cursor.feed_page(Page { items: server(page) });
        } else {
            assert!(cursor.is_done());
            break;
        }
    }
    (items, fetched)
}

/// A server holding the numbers `0..total`, in pages of `per_page`.
fn numbers(total: usize, per_page: usize) -> impl Fn(usize) -> Vec<usize> {
    move |page| {
        let lo = ((page - 1) * per_page).min(total);
        let hi = (page * per_page).min(total);
        (lo..hi).collect()
    }
}

#[test]
fn code_search_yields_full_pages_then_short_page() {
    let server = |page: usize| -> Vec<Occurrence> {
        let n = if page <= 3 { 100 } else { 40 };
        (0..n)
            .map(|i| Occurrence { path: format!("p{}/f{}.c", page, i) })
            .collect()
    };
    let cursor = Paginator::new(code_query());
    let (items, fetched) = drain(cursor, server);
    assert_eq!(items.len(), 340);
    assert_eq!(fetched, vec![1, 2, 3, 4]);
    assert_eq!(items[0].path, "p1/f0.c");
    assert_eq!(items[99].path, "p1/f99.c");
    assert_eq!(items[100].path, "p2/f0.c");
    assert_eq!(items[339].path, "p4/f39.c");
}

#[test]
fn full_pages_stop_at_tenth_page() {
    let cursor: Paginator<u32, usize> = Paginator::new(0);
    let (items, fetched) = drain(cursor, |page: usize| {
        if page <= 10 {
            (0..PER_PAGE).collect()
        } else {
            Vec::new()
        }
    });
    assert_eq!(fetched, (1..=10).collect::<Vec<usize>>());
    assert_eq!(items.len(), 1000);
}

#[test]
fn ceiling_marks_possible_truncation() {
    let mut cursor: Paginator<u32, usize> = Paginator::new(0);
    for page in 1..=MAX_PAGES {
        assert_eq!(cursor.page_to_fetch(), Some(page));
        cursor.feed_page(Page { items: (0..PER_PAGE).collect() });
        while cursor.next_item().is_some() {}
    }
    assert!(cursor.is_done());
    assert!(cursor.possibly_truncated());
    assert_eq!(cursor.page_to_fetch(), None);
}

#[test]
fn short_page_does_not_mark_truncation() {
    let cursor: Paginator<u32, usize> = Paginator::new(0);
    let mut cursor = cursor;
    cursor.feed_page(Page { items: vec![1, 2, 3] });
    assert!(!cursor.possibly_truncated());
    assert_eq!(cursor.page_to_fetch(), None);
    assert_eq!(cursor.next_item(), Some(1));
    assert_eq!(cursor.next_item(), Some(2));
    assert_eq!(cursor.next_item(), Some(3));
    assert_eq!(cursor.next_item(), None);
    assert!(cursor.is_done());
}

#[test]
fn yields_min_of_total_and_ceiling_in_order() {
    for &(total, per_page, pages) in &[
        (250usize, 100usize, 3usize),
        (1500, 100, 10),
        (30, 7, 5),
        (71, 7, 10),
        (1, 100, 1),
    ] {
        let cursor: Paginator<u32, usize> = Paginator::with_page_size(0, per_page);
        let (items, fetched) = drain(cursor, numbers(total, per_page));
        let expected: Vec<usize> = (0..total.min(10 * per_page)).collect();
        assert_eq!(items, expected);
        assert_eq!(fetched.len(), pages);
    }
}

#[test]
fn exact_multiple_needs_an_empty_page_to_end() {
    let cursor: Paginator<u32, usize> = Paginator::new(0);
    let (items, fetched) = drain(cursor, numbers(200, 100));
    assert_eq!(items, (0..200).collect::<Vec<usize>>());
    assert_eq!(fetched, vec![1, 2, 3]);
}

#[test]
fn empty_first_page_ends_enumeration() {
    let cursor: Paginator<u32, usize> = Paginator::new(0);
    let (items, fetched) = drain(cursor, numbers(0, 100));
    assert!(items.is_empty());
    assert_eq!(fetched, vec![1]);
}

#[test]
fn next_page_rules() {
    assert_eq!(next_page(1, 100, 100), Some(2));
    assert_eq!(next_page(9, 100, 100), Some(10));
    assert_eq!(next_page(10, 100, 100), None);
    assert_eq!(next_page(3, 99, 100), None);
    assert_eq!(next_page(1, 0, 100), None);
}

#[test]
fn cursor_keeps_its_query() {
    let q = code_query();
    let cursor: Paginator<OccurrenceQuery, Occurrence> = Paginator::new(q);
    assert_eq!(cursor.query().repo, "owner/name");
    assert_eq!(cursor.query().token, "FILE");
    assert_eq!(cursor.page_to_fetch(), Some(1));
}

#[test]
fn step_walks_pages_and_items() {
    let mut cursor: Paginator<u32, usize> = Paginator::with_page_size(7, 2);
    let mut log = Vec::new();
    loop {
        match cursor.step() {
            Step::Item(i) => log.push(format!("item {}", i)),
            Step::Fetch(q, page) => {
                assert_eq!(q, 7);
                log.push(format!("fetch {}", page));
                let items = if page == 1 { vec![10, 11] } else { vec![20] };
                cursor.feed_page(Page { items });
            }
            Step::Done => break,
        }
    }
    assert_eq!(log, vec!["fetch 1", "item 10", "item 11", "fetch 2", "item 20"]);
}
