//! Enumeration of GitHub repository and code search results: pagination under
//! the search API's result cap, star-range splitting, the classification of
//! rate-limited responses and the retry decisions taken on them, the text of
//! requests, and the crawler's repository list.
pub mod github_api;
pub mod pagination;
pub mod records;
pub mod repositories;
pub mod request;
pub mod star_range;
pub mod transport;
