//! Session auth: a JWT in an httpOnly cookie. This module holds the session's
//! claims, the cookies that carry the session and the OAuth round-trip, and the
//! revocation rule; signing and cookie transport happen at the edge.
use vstd::prelude::*;
use std::time::{SystemTime, UNIX_EPOCH};
use crate::error::AppError;

verus! {

/// `std::time::SystemTime`, carried opaquely from the clock to the epoch reading.
#[verifier::external_type_specification]
#[verifier::external_body]
pub struct ExSystemTime(std::time::SystemTime);

/// The current wall-clock time (`SystemTime::now`). Nothing is claimed of it.
#[verifier::external_body]
fn system_now() -> SystemTime {
    SystemTime::now()
}

/// Whole seconds from the Unix epoch to `t` (`SystemTime::duration_since`,
/// read with `Duration::as_secs`); none when `t` lies before the epoch.
/// Nothing is claimed of the value, which depends on the clock.
#[verifier::external_body]
fn secs_since_epoch(t: SystemTime) -> Option<u64> {
    match t.duration_since(UNIX_EPOCH) {
        Ok(d) => Some(d.as_secs()),
        Err(_) => None,
    }
}

/// The epoch reading as a `usize`: its seconds where there is one, and 0 for a
/// clock that reads before the epoch.
pub fn secs_or_zero(s: Option<u64>) -> (r: usize)
    ensures
        r == match s {
            Some(x) => x as usize,
            None => 0usize,
        },
{
    match s {
        Some(x) => x as usize,
        None => 0,
    }
}

/// Seconds since the Unix epoch, or 0 when the clock reads earlier. The
/// reading itself comes from the clock, so the result is whatever
/// `secs_or_zero` makes of it.
pub fn unix_now() -> usize {
    secs_or_zero(secs_since_epoch(system_now()))
}

/// Days a session lasts.
pub const SESSION_TTL_DAYS: i64 = 7;

/// Seconds a session lasts.
pub const SESSION_TTL_SECS: usize = 604800;

/// Cookie names. With `Secure` the `__Host-` prefix makes the browser enforce
/// host-locking; the prefix is browser-rejected without `Secure`, so plain-HTTP
/// development keeps the bare names.
pub open spec fn cookie_name(base: Seq<char>, secure: bool) -> Seq<char> {
    if secure {
        "__Host-"@ + base
    } else {
        base
    }
}

pub fn session_cookie_name(secure: bool) -> (r: &'static str)
    ensures
        r@ == cookie_name("fk_session"@, secure),
{
    proof {
        reveal_strlit("__Host-");
        reveal_strlit("fk_session");
        reveal_strlit("__Host-fk_session");
    }
    if secure {
        let r = "__Host-fk_session";
        assert(r@ =~= "__Host-"@ + "fk_session"@);
        r
    } else {
        "fk_session"
    }
}

pub fn state_cookie_name(secure: bool) -> (r: &'static str)
    ensures
        r@ == cookie_name("fk_oauth_state"@, secure),
{
    proof {
        reveal_strlit("__Host-");
        reveal_strlit("fk_oauth_state");
        reveal_strlit("__Host-fk_oauth_state");
    }
    if secure {
        let r = "__Host-fk_oauth_state";
        assert(r@ =~= "__Host-"@ + "fk_oauth_state"@);
        r
    } else {
        "fk_oauth_state"
    }
}

pub fn next_cookie_name(secure: bool) -> (r: &'static str)
    ensures
        r@ == cookie_name("fk_oauth_next"@, secure),
{
    proof {
        reveal_strlit("__Host-");
        reveal_strlit("fk_oauth_next");
        reveal_strlit("__Host-fk_oauth_next");
    }
    if secure {
        let r = "__Host-fk_oauth_next";
        assert(r@ =~= "__Host-"@ + "fk_oauth_next"@);
        r
    } else {
        "fk_oauth_next"
    }
}

/// The claims of a session JWT.
#[derive(Debug, Clone)]
pub struct Claims {
    /// Our user id.
    pub sub: String,
    pub email: String,
    pub name: Option<String>,
    /// The user's token version at issue time; a mismatch on verify means the
    /// session was revoked.
    pub ver: i32,
    pub iss: String,
    pub aud: String,
    pub iat: usize,
    pub exp: usize,
}

/// The issuer every session token names.
pub const JWT_ISSUER: &'static str = "fillerkiller";

/// The audience every session token names.
pub const JWT_AUDIENCE: &'static str = "fillerkiller-session";

/// The claims of a session issued at `now` for a user: pinned to this app's
/// issuer and audience, expiring after seven days.
pub fn session_claims(sub: &str, email: &str, name: Option<&str>, ver: i32, now: usize) -> (r:
    Claims)
    requires
        now + SESSION_TTL_SECS <= usize::MAX,
    ensures
        r.sub@ == sub@,
        r.email@ == email@,
        (match r.name {
            Some(n) => Some(n@),
            None => None,
        }) == (match name {
            Some(n) => Some(n@),
            None => None,
        }),
        r.ver == ver,
        r.iss@ == JWT_ISSUER@,
        r.aud@ == JWT_AUDIENCE@,
        r.iat == now,
        r.exp == now + SESSION_TTL_SECS,
{
    Claims {
        sub: sub.to_string(),
        email: email.to_string(),
        name: match name {
            Some(n) => Some(n.to_string()),
            None => None,
        },
        ver,
        iss: JWT_ISSUER.to_string(),
        aud: JWT_AUDIENCE.to_string(),
        iat: now,
        exp: now + SESSION_TTL_SECS,
    }
}

/// The revocation rule: a session stands only while its token version is the
/// account's current one; a deleted account (no version) ends it too.
pub fn check_token_version(claimed: i32, current: Option<i32>) -> (r: Result<(), AppError>)
    ensures
        r is Ok <==> current == Some(claimed),
        r matches Err(e) ==> e is Unauthorized,
{
    match current {
        Some(v) if v == claimed => Ok(()),
        _ => Err(AppError::Unauthorized),
    }
}

/// A cookie's `SameSite` policy.
#[derive(Debug, Clone, Copy, PartialEq, Eq, Structural)]
pub enum SameSitePolicy {
    Strict,
    Lax,
}

/// A cookie to set: name, value and attributes.
#[derive(Debug, Clone)]
pub struct CookieSpec {
    pub name: String,
    pub value: String,
    pub http_only: bool,
    pub same_site: SameSitePolicy,
    pub secure: bool,
    pub path: String,
    pub max_age_secs: i64,
}

/// An httpOnly cookie scoped to the whole site.
pub open spec fn site_cookie(
    c: CookieSpec,
    name: Seq<char>,
    value: Seq<char>,
    same_site: SameSitePolicy,
    secure: bool,
    max_age_secs: int,
) -> bool {
    &&& c.name@ == name
    &&& c.value@ == value
    &&& c.http_only
    &&& c.same_site == same_site
    &&& c.secure == secure
    &&& c.path@ == "/"@
    &&& c.max_age_secs == max_age_secs
}

fn build_cookie(
    name: &str,
    value: String,
    same_site: SameSitePolicy,
    secure: bool,
    max_age_secs: i64,
) -> (r: CookieSpec)
    ensures
        site_cookie(r, name@, value@, same_site, secure, max_age_secs as int),
{
    CookieSpec {
        name: name.to_string(),
        value,
        http_only: true,
        same_site,
        secure,
        path: "/".to_string(),
        max_age_secs,
    }
}

/// The session cookie carrying the JWT: `SameSite=Strict`, seven days.
pub fn session_cookie(token: String, secure: bool) -> (r: CookieSpec)
    ensures
        site_cookie(
            r,
            cookie_name("fk_session"@, secure),
            token@,
            SameSitePolicy::Strict,
            secure,
            604800,
        ),
{
    build_cookie(session_cookie_name(secure), token, SameSitePolicy::Strict, secure, 604800)
}

/// An expired empty cookie that overwrites `name`, to clear it, repeating the
/// original path and `Secure` attribute.
pub fn clear_cookie(name: &str, secure: bool) -> (r: CookieSpec)
    ensures
        site_cookie(r, name@, Seq::empty(), SameSitePolicy::Strict, secure, 0),
{
    build_cookie(name, String::new(), SameSitePolicy::Strict, secure, 0)
}

/// An expired empty session cookie, to clear the session on logout.
pub fn clear_session_cookie(secure: bool) -> (r: CookieSpec)
    ensures
        site_cookie(
            r,
            cookie_name("fk_session"@, secure),
            Seq::empty(),
            SameSitePolicy::Strict,
            secure,
            0,
        ),
{
    clear_cookie(session_cookie_name(secure), secure)
}

/// Short-lived CSRF `state` cookie for the OAuth round-trip (`Lax`, so the
/// provider's redirect back carries it; ten minutes).
pub fn state_cookie(state: String, secure: bool) -> (r: CookieSpec)
    ensures
        site_cookie(r, cookie_name("fk_oauth_state"@, secure), state@, SameSitePolicy::Lax, secure, 600),
{
    build_cookie(state_cookie_name(secure), state, SameSitePolicy::Lax, secure, 600)
}

/// Short-lived cookie carrying the post-login return path across the OAuth
/// round-trip (`Lax`, ten minutes).
pub fn next_cookie(path: String, secure: bool) -> (r: CookieSpec)
    ensures
        site_cookie(r, cookie_name("fk_oauth_next"@, secure), path@, SameSitePolicy::Lax, secure, 600),
{
    build_cookie(next_cookie_name(secure), path, SameSitePolicy::Lax, secure, 600)
}

/// The authenticated user of a request.
#[derive(Debug, Clone)]
pub struct CurrentUser {
    /// Our user id (hyphenated UUID text).
    pub id: String,
    pub email: String,
    pub name: Option<String>,
    /// The user's current token version, already checked against the claim.
    pub token_version: i32,
}

} // verus!
