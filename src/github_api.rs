//! The search API's data: queries, result items and pages, and the text of
//! the requests that ask for them.
use vstd::prelude::*;

verus! {

/// A file's content as the contents endpoint returns it.
#[derive(Clone, Debug, PartialEq, Eq, Hash)]
pub struct FileContent {
    pub encoding: String,
    pub content: String,
}

/// A code search hit: the path of a file, relative to its repository.
#[derive(Clone, Debug, PartialEq, Eq, Hash)]
pub struct Occurrence {
    pub path: String,
}

/// A repository search hit.
#[derive(Clone, Debug, PartialEq, Eq, Hash)]
pub struct Repository {
    pub full_name: String,
    pub stargazers_count: usize,
}

/// One page of search results, in the order the server gave them.
pub struct Page<T> {
    pub items: Vec<T>,
}

/// A code search in one repository: files holding `token`, written in
/// `lang`, optionally under a path or with a given file name.
#[derive(Clone, Copy)]
pub struct OccurrenceQuery<'a> {
    pub repo: &'a str,
    pub path: Option<&'a str>,
    pub filename: Option<&'a str>,
    pub lang: &'static str,
    pub token: &'static str,
}

/// A repository search: repositories written in `lang` whose star count lies
/// in `[min_stars, max_stars]`.
#[derive(Clone, Copy)]
pub struct RepositoryQuery {
    pub min_stars: usize,
    pub max_stars: usize,
    pub lang: &'static str,
}

} // verus!
