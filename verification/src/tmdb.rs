//! The TMDB catalog's answers, as the import and search paths read them, and
//! TMDB image URLs.
use vstd::prelude::*;
use crate::error::TmdbError;

verus! {

/// One result of a TMDB TV search.
#[derive(Debug, Clone)]
pub struct TmdbSearchResult {
    pub id: i64,
    pub name: String,
    pub first_air_date: Option<String>,
    pub poster_path: Option<String>,
    pub overview: Option<String>,
}

/// A page of TMDB TV search results.
#[derive(Debug, Clone)]
pub struct TmdbSearchResponse {
    pub page: i32,
    pub results: Vec<TmdbSearchResult>,
    pub total_results: i32,
}

/// A season as TMDB's series detail lists it.
#[derive(Debug, Clone)]
pub struct TmdbSeasonSummary {
    pub season_number: i32,
    pub name: String,
    pub episode_count: i32,
}

/// A full TMDB image URL: the CDN base, the size, then the TMDB-relative path.
pub open spec fn image_url_text(base: Seq<char>, size: Seq<char>, path: Seq<char>) -> Seq<char> {
    base + "/"@ + size + path
}

/// Build a full image URL from a TMDB-relative path, when there is one.
pub fn image_url(image_base_url: &str, path: Option<&str>, size: &str) -> (r: Option<String>)
    ensures
        match path {
            Some(p) => r matches Some(u) && u@ == image_url_text(image_base_url@, size@, p@),
            None => r is None,
        },
{
    match path {
        Some(p) => {
            let mut s = String::new();
            s.append(image_base_url);
            s.append("/");
            s.append(size);
            s.append(p);
            Some(s)
        },
        None => None,
    }
}

/// The failure a TMDB answer's status means, if any: 429 is a rate limit,
/// any other status outside 200–299 a failed request for `path`.
pub fn status_error(status: u16, path: &str) -> (r: Option<TmdbError>)
    ensures
        status == 429 ==> r matches Some(TmdbError::RateLimited),
        status != 429 && !(200 <= status <= 299) ==> (r matches Some(TmdbError::Status { status: s, path: p })
            && s == status && p@ == path@),
        200 <= status <= 299 ==> r is None,
{
    if status == 429 {
        Some(TmdbError::RateLimited)
    } else if status < 200 || status > 299 {
        Some(TmdbError::Status { status, path: path.to_string() })
    } else {
        None
    }
}

} // verus!
