//! The text of requests to the search API: search terms, query parameters
//! and full URLs.
//!
//! Parameter values go into the URL as they are: callers pass values that
//! need no escaping.
use vstd::prelude::*;

use crate::github_api::{OccurrenceQuery, RepositoryQuery};
use crate::pagination::PER_PAGE;

verus! {

/// Origin and root of every API URL.
pub const API_ROOT: &'static str = "https://api.github.com/";

/// User agent sent with every request.
pub const USER_AGENT: &'static str = "ghcrawl";

/// The decimal digits, in order.
pub const DIGITS: &'static str = "0123456789";

/// The character of decimal digit `d`.
pub open spec fn digit_char(d: nat) -> char {
    DIGITS@[d as int]
}

/// `n` written in decimal, without leading zeros.
pub open spec fn decimal_spec(n: nat) -> Seq<char>
    decreases n,
{
    if n < 10 {
        seq![digit_char(n)]
    } else {
        decimal_spec(n / 10).push(digit_char(n % 10))
    }
}

/// `n` written in decimal.
pub fn decimal(n: usize) -> (r: String)
    ensures
        r@ == decimal_spec(n as nat),
    decreases n,
{
    let mut s = if n >= 10 {
        decimal(n / 10)
    } else {
        String::new()
    };
    let d: usize = n % 10;
    proof {
        reveal_strlit("0123456789");
    }
    let c = DIGITS.substring_char(d, d + 1);
    proof {
        assert(c@ =~= seq![digit_char(d as nat)]);
    }
    s.append(c);
    proof {
        if n < 10 {
            assert(s@ =~= seq![digit_char(n as nat)]);
        }
    }
    s
}

/// What `str::to_lowercase` makes of `s`.
pub uninterp spec fn lower_of(s: Seq<char>) -> Seq<char>;

/// Relies on `str::to_lowercase`: its result depends on the characters of
/// `s` alone.
#[verifier::external_body]
fn lowercase(s: &str) -> (r: String)
    ensures
        r@ == lower_of(s@),
{
    s.to_lowercase()
}

/// `" " + name + ":" + value` when `value` is there, else nothing.
pub open spec fn qualifier(name: Seq<char>, value: Option<&str>) -> Seq<char> {
    match value {
        Some(v) => " "@ + name + ":"@ + v@,
        None => Seq::empty(),
    }
}

/// Search terms of a code search:
/// `token repo:<repo> language:<lang>[ path:<path>][ filename:<filename>]`.
pub open spec fn occurrence_terms(q: OccurrenceQuery) -> Seq<char> {
    q.token@ + " repo:"@ + q.repo@ + " language:"@ + q.lang@ + qualifier("path"@, q.path) + qualifier(
        "filename"@,
        q.filename,
    )
}

/// Search terms of a repository search over `[min, max]` stars in the
/// language `lang`: `stars:<min>..<max> language:<lang>`.
pub open spec fn repository_terms(min: nat, max: nat, lang: Seq<char>) -> Seq<char> {
    "stars:"@ + decimal_spec(min) + ".."@ + decimal_spec(max) + " language:"@ + lang
}

fn append_qualifier(s: &mut String, name: &str, value: Option<&str>)
    ensures
        final(s)@ == old(s)@ + qualifier(name@, value),
{
    if let Some(v) = value {
        s.append(" ");
        s.append(name);
        s.append(":");
        s.append(v);
    }
    proof {
        assert(final(s)@ =~= old(s)@ + qualifier(name@, value));
    }
}

impl<'a> OccurrenceQuery<'a> {
    /// The search terms of this query.
    pub fn search_terms(&self) -> (r: String)
        ensures
            r@ == occurrence_terms(*self),
    {
        let mut s = String::from_str(self.token);
        s.append(" repo:");
        s.append(self.repo);
        s.append(" language:");
        s.append(self.lang);
        append_qualifier(&mut s, "path", self.path);
        append_qualifier(&mut s, "filename", self.filename);
        proof {
            assert(s@ =~= occurrence_terms(*self));
        }
        s
    }
}

/// The search terms of a repository search over `[min_stars, max_stars]`,
/// given the language already in lower case.
pub fn repository_terms_lower(min_stars: usize, max_stars: usize, lang_lower: &str) -> (r: String)
    ensures
        r@ == repository_terms(min_stars as nat, max_stars as nat, lang_lower@),
{
    let mut s = String::from_str("stars:");
    let lo = decimal(min_stars);
    let hi = decimal(max_stars);
    s.append(lo.as_str());
    s.append("..");
    s.append(hi.as_str());
    s.append(" language:");
    s.append(lang_lower);
    proof {
        assert(s@ =~= repository_terms(min_stars as nat, max_stars as nat, lang_lower@));
    }
    s
}

impl RepositoryQuery {
    /// The search terms of this query; the language is written in lower case.
    pub fn search_terms(&self) -> (r: String)
        ensures
            r@ == repository_terms(self.min_stars as nat, self.max_stars as nat, lower_of(self.lang@)),
    {
        let lang = lowercase(self.lang);
        repository_terms_lower(self.min_stars, self.max_stars, lang.as_str())
    }
}

/// `key=value` pairs joined by `&`.
pub open spec fn query_string(params: Seq<(Seq<char>, Seq<char>)>) -> Seq<char>
    decreases params.len(),
{
    if params.len() == 0 {
        Seq::empty()
    } else {
        let last = params.last();
        let sep = if params.len() > 1 { "&"@ } else { Seq::empty() };
        query_string(params.drop_last()) + sep + last.0 + "="@ + last.1
    }
}

/// The text of each parameter.
pub open spec fn param_views(params: Seq<(&str, String)>) -> Seq<(Seq<char>, Seq<char>)> {
    params.map_values(|p: (&str, String)| (p.0@, p.1@))
}

/// The URL of `path` under the API root with the query `params`.
pub open spec fn url_spec(path: Seq<char>, params: Seq<(Seq<char>, Seq<char>)>) -> Seq<char> {
    API_ROOT@ + path + "?"@ + query_string(params)
}

/// The URL of `path` under the API root with the query `params`, in order.
pub fn api_url(path: &str, params: &Vec<(&str, String)>) -> (r: String)
    ensures
        r@ == url_spec(path@, param_views(params@)),
{
    let ghost views = param_views(params@);
    let mut url = String::from_str(API_ROOT);
    url.append(path);
    url.append("?");
    let mut i: usize = 0;
    while i < params.len()
        invariant
            i <= params@.len(),
            views == param_views(params@),
            url@ == API_ROOT@ + path@ + "?"@ + query_string(views.take(i as int)),
        decreases params@.len() - i,
    {
        if i > 0 {
            url.append("&");
        }
        let (k, v) = &params[i];
        url.append(k);
        url.append("=");
        url.append(v.as_str());
        proof {
            let t = views.take(i + 1);
            assert(t.drop_last() =~= views.take(i as int));
            assert(t.last() == views[i as int]);
        }
        i = i + 1;
        proof {
            assert(url@ =~= API_ROOT@ + path@ + "?"@ + query_string(views.take(i as int)));
        }
    }
    proof {
        assert(views.take(i as int) =~= views);
    }
    url
}

/// The URL of page `page` of the code search `q`.
pub fn occurrence_search_url(q: OccurrenceQuery, page: usize) -> (r: String)
    ensures
        r@ == url_spec(
            "search/code"@,
            seq![
                ("q"@, occurrence_terms(q)),
                ("page"@, decimal_spec(page as nat)),
                ("per_page"@, decimal_spec(PER_PAGE as nat)),
            ],
        ),
{
    let params: Vec<(&str, String)> = vec![
        ("q", q.search_terms()),
        ("page", decimal(page)),
        ("per_page", decimal(PER_PAGE)),
    ];
    let r = api_url("search/code", &params);
    proof {
        assert(param_views(params@) =~= seq![
            ("q"@, occurrence_terms(q)),
            ("page"@, decimal_spec(page as nat)),
            ("per_page"@, decimal_spec(PER_PAGE as nat)),
        ]);
    }
    r
}

/// The URL of page `page` of the repository search `q`, ordered by stars.
pub fn repository_search_url(q: RepositoryQuery, page: usize) -> (r: String)
    ensures
        r@ == url_spec(
            "search/repositories"@,
            seq![
                ("q"@, repository_terms(q.min_stars as nat, q.max_stars as nat, lower_of(q.lang@))),
                ("order"@, "stars"@),
                ("page"@, decimal_spec(page as nat)),
                ("per_page"@, decimal_spec(PER_PAGE as nat)),
            ],
        ),
{
    let params: Vec<(&str, String)> = vec![
        ("q", q.search_terms()),
        ("order", String::from_str("stars")),
        ("page", decimal(page)),
        ("per_page", decimal(PER_PAGE)),
    ];
    let r = api_url("search/repositories", &params);
    proof {
        assert(param_views(params@) =~= seq![
            ("q"@, repository_terms(q.min_stars as nat, q.max_stars as nat, lower_of(q.lang@))),
            ("order"@, "stars"@),
            ("page"@, decimal_spec(page as nat)),
            ("per_page"@, decimal_spec(PER_PAGE as nat)),
        ]);
    }
    r
}

/// The URL of the language statistics of `repo` (`owner/name`).
pub fn languages_url(repo: &str) -> (r: String)
    ensures
        r@ == url_spec("repos/"@ + repo@ + "/languages"@, Seq::empty()),
{
    let mut path = String::from_str("repos/");
    path.append(repo);
    path.append("/languages");
    let params: Vec<(&str, String)> = Vec::new();
    let r = api_url(path.as_str(), &params);
    proof {
        assert(param_views(params@) =~= Seq::empty());
    }
    r
}

/// The URL of the file at `path` in `repo` (`owner/name`).
pub fn contents_url(repo: &str, path: &str) -> (r: String)
    ensures
        r@ == url_spec("repos/"@ + repo@ + "/contents/"@ + path@, Seq::empty()),
{
    let mut p = String::from_str("repos/");
    p.append(repo);
    p.append("/contents/");
    p.append(path);
    let params: Vec<(&str, String)> = Vec::new();
    let r = api_url(p.as_str(), &params);
    proof {
        assert(param_views(params@) =~= Seq::empty());
    }
    r
}

/// The value of the `Authorization` header for `token`.
pub fn authorization_value(token: &str) -> (r: String)
    ensures
        r@ == "token "@ + token@,
{
    let mut s = String::from_str("token ");
    s.append(token);
    s
}

} // verus!
