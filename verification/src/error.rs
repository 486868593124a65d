//! The API error type and the status/code/message it is rendered with.
use vstd::prelude::*;

verus! {

/// An API error. Renders as `{ "error": { "code", "message" } }` with an HTTP status.
#[derive(Debug)]
pub enum AppError {
    NotFound(String),
    BadRequest(String),
    /// Missing or invalid session.
    Unauthorized,
    /// Authenticated, but not allowed to act on this resource.
    Forbidden,
    /// Client exceeded the vote rate limit.
    RateLimited,
    /// Upstream (TMDB / OAuth provider) failure.
    Upstream(String),
    /// Upstream asked us to back off.
    UpstreamRateLimited,
    /// Anything unexpected (DB, etc.). The detail is logged, never exposed.
    Internal(String),
}

/// `e` is a bad-request error carrying message `m`.
pub open spec fn is_bad_request(e: AppError, m: Seq<char>) -> bool {
    e matches AppError::BadRequest(s) && s@ == m
}

/// `e` is a not-found error carrying message `m`.
pub open spec fn is_not_found(e: AppError, m: Seq<char>) -> bool {
    e matches AppError::NotFound(s) && s@ == m
}

/// `e` is an upstream error carrying message `m`.
pub open spec fn is_upstream(e: AppError, m: Seq<char>) -> bool {
    e matches AppError::Upstream(s) && s@ == m
}

/// The HTTP status, machine code and client-facing message of an error.
pub open spec fn error_parts(e: AppError) -> (u16, Seq<char>, Seq<char>) {
    match e {
        AppError::NotFound(m) => (404, "not_found"@, m@),
        AppError::BadRequest(m) => (400, "bad_request"@, m@),
        AppError::Unauthorized => (401, "unauthorized"@, "authentication required"@),
        AppError::Forbidden => (403, "forbidden"@, "you don't have permission to do that"@),
        AppError::RateLimited => (429, "rate_limited"@, "too many requests; slow down"@),
        AppError::Upstream(m) => (502, "upstream_error"@, m@),
        AppError::UpstreamRateLimited => (
            503,
            "upstream_rate_limited"@,
            "upstream is rate limiting; try again shortly"@,
        ),
        AppError::Internal(_) => (500, "internal"@, "internal server error"@),
    }
}

/// A TMDB client failure, as the error mapping reads it.
#[derive(Debug)]
pub enum TmdbError {
    /// TMDB answered 429.
    RateLimited,
    /// TMDB answered another non-success status for `path`.
    Status { status: u16, path: String },
    /// The request or the body decode failed.
    Transport(String),
}

/// The client-facing error a TMDB failure becomes: back-off stays back-off, a
/// missing show is a clean 404, anything else a generic upstream error.
pub open spec fn tmdb_error_maps_to(e: TmdbError, r: AppError) -> bool {
    match e {
        TmdbError::RateLimited => r matches AppError::UpstreamRateLimited,
        TmdbError::Status { status, .. } => if status == 404 {
            is_not_found(r, "we couldn't find that show"@)
        } else {
            is_upstream(r, "the TV database is unavailable; try again shortly"@)
        },
        TmdbError::Transport(_) => is_upstream(
            r,
            "the TV database is unavailable; try again shortly"@,
        ),
    }
}

impl AppError {
    /// The HTTP status, machine code and message this error renders with.
    pub fn parts(&self) -> (r: (u16, &'static str, String))
        ensures
            (r.0, r.1@, r.2@) == error_parts(*self),
    {
        match self {
            AppError::NotFound(m) => (404, "not_found", m.clone()),
            AppError::BadRequest(m) => (400, "bad_request", m.clone()),
            AppError::Unauthorized => (401, "unauthorized", "authentication required".to_string()),
            AppError::Forbidden => (
                403,
                "forbidden",
                "you don't have permission to do that".to_string(),
            ),
            AppError::RateLimited => (429, "rate_limited", "too many requests; slow down".to_string()),
            AppError::Upstream(m) => (502, "upstream_error", m.clone()),
            AppError::UpstreamRateLimited => (
                503,
                "upstream_rate_limited",
                "upstream is rate limiting; try again shortly".to_string(),
            ),
            AppError::Internal(_) => (500, "internal", "internal server error".to_string()),
        }
    }

    /// The client-facing error for a TMDB failure.
    pub fn from_tmdb(e: TmdbError) -> (r: AppError)
        ensures
            tmdb_error_maps_to(e, r),
    {
        match e {
            TmdbError::RateLimited => AppError::UpstreamRateLimited,
            TmdbError::Status { status, .. } => {
                if status == 404 {
                    AppError::NotFound("we couldn't find that show".to_string())
                } else {
                    AppError::Upstream("the TV database is unavailable; try again shortly".to_string())
                }
            },
            TmdbError::Transport(_) => AppError::Upstream(
                "the TV database is unavailable; try again shortly".to_string(),
            ),
        }
    }
}

/// An internal error's detail never reaches the client: every internal error
/// renders the same status, code and message.
pub proof fn lemma_internal_detail_hidden(a: String, b: String)
    ensures
        error_parts(AppError::Internal(a)) == error_parts(AppError::Internal(b)),
{
}

} // verus!
