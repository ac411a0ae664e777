use ghcrawl::github_api::RepositoryQuery;
use ghcrawl::star_range::StarWindows;

fn all_windows(min_stars: usize, max_stars: usize) -> Vec<(usize, usize)> {
    let mut windows = StarWindows::new(RepositoryQuery { min_stars, max_stars, lang: "C" });
    let mut out = Vec::new();
    while let Some(q) = windows.next_window() {
        assert_eq!(q.lang, "C");
        out.push((q.min_stars, q.max_stars));
    }
    out
}

#[test]
fn bisection_of_default_range() {
    let ws = all_windows(1000, 128000);
    assert_eq!(
        ws,
        vec![
            (64000, 128000),
            (31999, 63999),
            (15999, 31998),
            (7999, 15998),
            (3999, 7998),
            (1999, 3998),
            (1000, 1998),
        ]
    );
    assert_eq!(ws[0].1, 128000);
    assert_eq!(ws[ws.len() - 1].0, 1000);
    for pair in ws.windows(2) {
        assert_eq!(pair[1].1, pair[0].0 - 1);
        assert!(pair[1].0 <= pair[1].1);
    }
    let covered: usize = ws.iter().map(|(lo, hi)| hi - lo + 1).sum();
    assert_eq!(covered, 128000 - 1000 + 1);
}

#[test]
fn empty_range_has_no_window() {
    assert!(all_windows(10, 9).is_empty());
}

#[test]
fn range_from_zero() {
    assert_eq!(all_windows(0, 0), vec![(0, 0)]);
    assert_eq!(all_windows(0, 3), vec![(1, 3), (0, 0)]);
}

#[test]
fn narrow_range_is_one_window() {
    assert_eq!(all_windows(100, 150), vec![(100, 150)]);
}

#[test]
fn exhausted_windows_stay_exhausted() {
    let mut windows = StarWindows::new(RepositoryQuery { min_stars: 5, max_stars: 5, lang: "C" });
    assert!(windows.next_window().is_some());
    assert!(windows.next_window().is_none());
    assert!(windows.next_window().is_none());
}
