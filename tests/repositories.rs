use ghcrawl::github_api::{Page, Repository, RepositoryQuery};
use ghcrawl::pagination::Step;
use ghcrawl::repositories::RepositoryCursor;

/// Runs a cursor against `server`; returns the repositories in order and
/// the fetches made, as (min stars, max stars, page).
fn run(
    q: RepositoryQuery,
    server: impl Fn(RepositoryQuery, usize) -> Vec<Repository>,
) -> (Vec<Repository>, Vec<(usize, usize, usize)>) {
    let mut cursor = RepositoryCursor::new(q);
    let mut items = Vec::new();
    let mut fetches = Vec::new();
    loop {
        match cursor.step() {
            Step::Item(r) => items.push(r),
            Step::Fetch(w, page) => {
                assert_eq!(w.lang, q.lang);
                fetches.push((w.min_stars, w.max_stars, page));
                cursor.feed_page(Page { items: server(w, page) });
            }
            Step::Done => break,
        }
    }
    (items, fetches)
}

fn repo(name: &str, stars: usize) -> Repository {
    Repository { full_name: name.to_string(), stargazers_count: stars }
}

#[test]
fn windows_are_walked_top_down() {
    let server = |w: RepositoryQuery, _page: usize| -> Vec<Repository> {
        vec![repo(&format!("top/{}", w.max_stars), w.max_stars), repo(&format!("low/{}", w.min_stars), w.min_stars)]
    };
    let q = RepositoryQuery { min_stars: 1000, max_stars: 4000, lang: "C" };
    let (items, fetches) = run(q, server);
    assert_eq!(fetches, vec![(2000, 4000, 1), (1000, 1999, 1)]);
    let names: Vec<&str> = items.iter().map(|r| r.full_name.as_str()).collect();
    assert_eq!(names, vec!["top/4000", "low/2000", "top/1999", "low/1000"]);
}

#[test]
fn full_window_is_paged_to_the_ceiling() {
    let server = |w: RepositoryQuery, page: usize| -> Vec<Repository> {
        if w.max_stars == 400 {
            (0..100).map(|i| repo(&format!("r{}-{}", page, i), 400)).collect()
        } else {
            Vec::new()
        }
    };
    let q = RepositoryQuery { min_stars: 150, max_stars: 400, lang: "C" };
    let mut cursor = RepositoryCursor::new(q);
    let mut fetches = Vec::new();
    let mut count = 0usize;
    let mut truncated = false;
    loop {
        match cursor.step() {
            Step::Item(_) => count += 1,
            Step::Fetch(w, page) => {
                fetches.push((w.min_stars, w.max_stars, page));
                cursor.feed_page(Page { items: server(w, page) });
                truncated |= cursor.window_possibly_truncated();
            }
            Step::Done => break,
        }
    }
    assert!(truncated);
    assert_eq!(count, 1000);
    assert_eq!(fetches.len(), 11);
    assert_eq!(fetches[9], (200, 400, 10));
    assert_eq!(fetches[10], (150, 199, 1));
}

#[test]
fn empty_range_is_done_at_once() {
    let q = RepositoryQuery { min_stars: 10, max_stars: 5, lang: "C" };
    let (items, fetches) = run(q, |_, _| Vec::new());
    assert!(items.is_empty());
    assert!(fetches.is_empty());
}
