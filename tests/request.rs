use ghcrawl::github_api::{OccurrenceQuery, RepositoryQuery};
use ghcrawl::request::{
    api_url, authorization_value, contents_url, decimal, languages_url, occurrence_search_url,
    repository_search_url, repository_terms_lower,
};

#[test]
fn decimal_digits() {
    assert_eq!(decimal(0), "0");
    assert_eq!(decimal(7), "7");
    assert_eq!(decimal(10), "10");
    assert_eq!(decimal(128000), "128000");
    assert_eq!(decimal(usize::MAX), usize::MAX.to_string());
}

#[test]
fn code_search_url_with_qualifiers() {
    let q = OccurrenceQuery {
        repo: "torvalds/linux",
        path: Some("fs/ext4"),
        filename: Some("inode.c"),
        lang: "c",
        token: "FILE",
    };
    assert_eq!(q.search_terms(), "FILE repo:torvalds/linux language:c path:fs/ext4 filename:inode.c");
    assert_eq!(
        occurrence_search_url(q, 3),
        "https://api.github.com/search/code?q=FILE repo:torvalds/linux language:c path:fs/ext4 filename:inode.c&page=3&per_page=100"
    );
}

#[test]
fn code_search_url_without_qualifiers() {
    let q = OccurrenceQuery { repo: "a/b", path: None, filename: None, lang: "c", token: "union" };
    assert_eq!(
        occurrence_search_url(q, 1),
        "https://api.github.com/search/code?q=union repo:a/b language:c&page=1&per_page=100"
    );
}

#[test]
fn repository_search_url_lowercases_language() {
    let q = RepositoryQuery { min_stars: 64000, max_stars: 128000, lang: "C" };
    assert_eq!(q.search_terms(), "stars:64000..128000 language:c");
    assert_eq!(
        repository_search_url(q, 2),
        "https://api.github.com/search/repositories?q=stars:64000..128000 language:c&order=stars&page=2&per_page=100"
    );
}

#[test]
fn repository_terms_from_lowered_language() {
    assert_eq!(repository_terms_lower(0, 9, "rust"), "stars:0..9 language:rust");
}

#[test]
fn plain_urls() {
    assert_eq!(languages_url("a/b"), "https://api.github.com/repos/a/b/languages?");
    assert_eq!(contents_url("a/b", "src/x.c"), "https://api.github.com/repos/a/b/contents/src/x.c?");
    let params = vec![("x", "1".to_string()), ("y", "2".to_string())];
    assert_eq!(api_url("p", &params), "https://api.github.com/p?x=1&y=2");
}

#[test]
fn authorization_header() {
    assert_eq!(authorization_value("abc"), "token abc");
}
