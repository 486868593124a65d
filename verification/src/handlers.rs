//! The rules the HTTP handlers apply before and after their I/O: which image
//! requests the proxy serves, which return paths a login may redirect to,
//! query validation, and the steps of the OAuth round-trip.
use vstd::prelude::*;
use crate::auth::{
    CookieSpec, SameSitePolicy, clear_cookie, cookie_name, next_cookie, next_cookie_name,
    session_cookie, site_cookie, state_cookie, state_cookie_name,
};
use crate::config::{AuthConfig, provider_index};
use crate::error::{AppError, is_bad_request, is_not_found};
use crate::oauth::{ProviderKind, authorize_endpoint_of, authorize_query, form_urlencoded};
use crate::scoring::{GuideMode, VoteReason, VoteValue};
use crate::text::{
    has_prefix, starts_with, char_count, chars_of, debug_quoted, debug_str, is_ascii_alnum, is_ascii_alphanumeric, push_char,
    push_range, str_eq, strip_trailing, trim, trim_end_char, trim_str, utf8_at_least, utf8_len,
};
use crate::seo::last_index_of;

verus! {

/// The TMDB sizes the image proxy serves: the ones the SPA and the cards use.
pub open spec fn image_size_ok(size: Seq<char>) -> bool {
    ||| size == "w92"@
    ||| size == "w154"@
    ||| size == "w185"@
    ||| size == "w300"@
    ||| size == "w342"@
    ||| size == "w500"@
}

/// The image file extensions the proxy serves.
pub open spec fn image_ext_ok(ext: Seq<char>) -> bool {
    ext == "jpg"@ || ext == "jpeg"@ || ext == "png"@
}

/// A well-formed TMDB image request: a whitelisted size and a bare
/// `{alnum}.jpg|jpeg|png` file name with a stem of 1 to 64 bytes (split at
/// the last dot).
pub open spec fn valid_image(size: Seq<char>, file: Seq<char>) -> bool {
    image_size_ok(size) && match last_index_of(file, '.') {
        Some(i) => {
            let stem = file.take(i);
            let ext = file.skip(i + 1);
            &&& image_ext_ok(ext)
            &&& stem.len() > 0
            &&& utf8_len(stem) <= 64
            &&& forall|k: int| 0 <= k < stem.len() ==> is_ascii_alnum(#[trigger] stem[k])
        },
        None => false,
    }
}

/// An accepted image file name is bare: ASCII letters and digits around a
/// single dot, so no slash, query or traversal syntax reaches the upstream.
pub proof fn lemma_valid_image_is_bare_name(size: Seq<char>, file: Seq<char>)
    requires
        valid_image(size, file),
    ensures
        exists|d: int|
            0 < d < file.len() && #[trigger] file[d] == '.' && forall|k: int|
                0 <= k < file.len() && k != d ==> is_ascii_alnum(#[trigger] file[k]),
{
    crate::seo::lemma_last_index_range(file, '.');
    let d = last_index_of(file, '.').unwrap();
    let stem = file.take(d);
    let ext = file.skip(d + 1);
    reveal_strlit("jpg");
    reveal_strlit("jpeg");
    reveal_strlit("png");
    assert forall|k: int| 0 <= k < file.len() && k != d implies is_ascii_alnum(#[trigger] file[k]) by {
        if k < d {
            assert(file[k] == stem[k]);
        } else {
            let j = k - d - 1;
            assert(file[k] == ext[j]);
            if ext == "jpg"@ {
                assert("jpg"@ =~= seq!['j', 'p', 'g']);
                assert(ext[j] == 'j' || ext[j] == 'p' || ext[j] == 'g');
            } else if ext == "jpeg"@ {
                assert("jpeg"@ =~= seq!['j', 'p', 'e', 'g']);
                assert(ext[j] == 'j' || ext[j] == 'p' || ext[j] == 'e' || ext[j] == 'g');
            } else {
                assert(ext == "png"@);
                assert("png"@ =~= seq!['p', 'n', 'g']);
                assert(ext[j] == 'p' || ext[j] == 'n' || ext[j] == 'g');
            }
        }
    }
    assert(file[d] == '.');
}

fn last_dot(v: &[char]) -> (r: Option<usize>)
    ensures
        (match r {
            Some(i) => Some(i as int),
            None => None,
        }) == last_index_of(v@, '.'),
{
    let mut i: usize = v.len();
    assert(v@.take(v@.len() as int) == v@);
    while i > 0
        invariant
            i <= v@.len(),
            last_index_of(v@, '.') == last_index_of(v@.take(i as int), '.'),
        decreases i,
    {
        assert(v@.take(i as int).drop_last() == v@.take(i - 1));
        if v[i - 1] == '.' {
            return Some(i - 1);
        }
        i = i - 1;
    }
    None
}

fn collect_range(v: &[char], from: usize, to: usize) -> (r: String)
    requires
        from <= to <= v@.len(),
    ensures
        r@ == v@.subrange(from as int, to as int),
{
    let mut s = String::new();
    crate::text::push_range(&mut s, v, from, to);
    assert(Seq::<char>::empty() + v@.subrange(from as int, to as int) =~= v@.subrange(
        from as int,
        to as int,
    ));
    s
}

/// Whether `{size}/{file}` is a well-formed TMDB image request; keeps the proxy
/// from fetching arbitrary upstream paths.
pub fn valid_image_request(size: &str, file: &str) -> (r: bool)
    ensures
        r == valid_image(size@, file@),
{
    let size_ok = str_eq(size, "w92") || str_eq(size, "w154") || str_eq(size, "w185") || str_eq(
        size,
        "w300",
    ) || str_eq(size, "w342") || str_eq(size, "w500");
    if !size_ok {
        return false;
    }
    let v = chars_of(file);
    let dot = match last_dot(v.as_slice()) {
        Some(i) => i,
        None => return false,
    };
    proof {
        crate::seo::lemma_last_index_range(v@, '.');
    }
    let stem = collect_range(v.as_slice(), 0, dot);
    let ext = collect_range(v.as_slice(), dot + 1, v.len());
    assert(stem@ == file@.take(dot as int));
    assert(ext@ == file@.skip(dot + 1));
    let ext_ok = str_eq(ext.as_str(), "jpg") || str_eq(ext.as_str(), "jpeg") || str_eq(
        ext.as_str(),
        "png",
    );
    if !ext_ok || dot == 0 || utf8_at_least(stem.as_str(), 65) {
        return false;
    }
    let mut k: usize = 0;
    while k < dot
        invariant
            k <= dot < v@.len(),
            v@ == file@,
            last_index_of(file@, '.') == Some(dot as int),
            forall|j: int| 0 <= j < k ==> is_ascii_alnum(#[trigger] v@[j]),
        decreases dot - k,
    {
        if !is_ascii_alphanumeric(v[k]) {
            assert(!is_ascii_alnum(file@.take(dot as int)[k as int]));
            return false;
        }
        k = k + 1;
    }
    assert forall|j: int| 0 <= j < dot implies is_ascii_alnum(#[trigger] file@.take(dot as int)[j]) by {
        assert(file@.take(dot as int)[j] == v@[j]);
    }
    true
}

/// A control character (`char::is_control`: the Unicode `Cc` category,
/// U+0000–U+001F and U+007F–U+009F).
pub open spec fn is_control_char(c: char) -> bool {
    c <= '\u{1f}' || ('\u{7f}' <= c && c <= '\u{9f}')
}

fn is_control(c: char) -> (r: bool)
    ensures
        r == is_control_char(c),
{
    c <= '\u{1f}' || ('\u{7f}' <= c && c <= '\u{9f}')
}

/// A safe post-login return path: site-relative (a single leading `/`, not a
/// protocol-relative `//`), no backslash and no control character, and at
/// most 512 bytes.
pub open spec fn safe_path(next: Seq<char>) -> bool {
    &&& next.len() >= 1 && next[0] == '/'
    &&& !(next.len() >= 2 && next[1] == '/')
    &&& !next.contains('\\')
    &&& forall|k: int| 0 <= k < next.len() ==> !is_control_char(#[trigger] next[k])
    &&& utf8_len(next) <= 512
}

/// Validate a post-login `next` target, so it can only ever redirect within
/// our own origin.
pub fn safe_next(next: &str) -> (r: Option<String>)
    ensures
        r is Some <==> safe_path(next@),
        r matches Some(s) ==> s@ == next@,
{
    let v = chars_of(next);
    if v.len() == 0 || v[0] != '/' {
        return None;
    }
    if v.len() >= 2 && v[1] == '/' {
        return None;
    }
    let mut i: usize = 0;
    while i < v.len()
        invariant
            v@ == next@,
            i <= v@.len(),
            forall|j: int| 0 <= j < i ==> v@[j] != '\\' && !is_control_char(#[trigger] v@[j]),
        decreases v@.len() - i,
    {
        let c = v[i];
        if c == '\\' || is_control(c) {
            assert(next@[i as int] == c);
            return None;
        }
        i = i + 1;
    }
    assert(!next@.contains('\\')) by {
        if next@.contains('\\') {
            let j = choose|j: int| 0 <= j < next@.len() && next@[j] == '\\';
            assert(v@[j] != '\\');
        }
    }
    if utf8_at_least(next, 513) {
        return None;
    }
    Some(next.to_string())
}

/// Check a search query: trimmed, it must be non-empty and at most 200
/// characters.
pub fn search_query(q: &str) -> (r: Result<String, AppError>)
    ensures
        trim(q@).len() == 0 ==> (r matches Err(e) && is_bad_request(
            e,
            "query parameter `q` is required"@,
        )),
        trim(q@).len() > 200 ==> (r matches Err(e) && is_bad_request(
            e,
            "query parameter `q` is too long"@,
        )),
        0 < trim(q@).len() <= 200 ==> (r matches Ok(t) && t@ == trim(q@)),
{
    let t = trim_str(q);
    let n = char_count(t.as_str());
    if n == 0 {
        return Err(AppError::BadRequest("query parameter `q` is required".to_string()));
    }
    if n > 200 {
        return Err(AppError::BadRequest("query parameter `q` is too long".to_string()));
    }
    Ok(t)
}

/// The number of popular shows to list: 12 by default, kept within 1 to 50.
pub open spec fn popular_limit_of(limit: Option<i64>) -> int {
    let l: int = match limit {
        Some(x) => x as int,
        None => 12,
    };
    if l < 1 {
        1
    } else if l > 50 {
        50
    } else {
        l
    }
}

pub fn popular_limit(limit: Option<i64>) -> (r: i64)
    ensures
        r == popular_limit_of(limit),
{
    let l: i64 = match limit {
        Some(x) => x,
        None => 12,
    };
    if l < 1 {
        1
    } else if l > 50 {
        50
    } else {
        l
    }
}

/// `s` without its leading `c`s.
pub open spec fn strip_leading(s: Seq<char>, c: char) -> Seq<char>
    decreases s.len(),
{
    if s.len() > 0 && s[0] == c {
        strip_leading(s.drop_first(), c)
    } else {
        s
    }
}

/// The image-cache file name of a TMDB poster path: the path without its
/// leading slashes.
pub fn poster_file(path: &str) -> (r: String)
    ensures
        r@ == strip_leading(path@, '/'),
{
    let v = chars_of(path);
    let mut a: usize = 0;
    assert(v@.skip(0) == v@);
    while a < v.len() && v[a] == '/'
        invariant
            v@ == path@,
            a <= v@.len(),
            strip_leading(v@, '/') == strip_leading(v@.skip(a as int), '/'),
        decreases v@.len() - a,
    {
        assert(v@.skip(a as int).drop_first() == v@.skip(a + 1));
        a = a + 1;
    }
    let s = collect_range(v.as_slice(), a, v.len());
    assert(s@ == v@.skip(a as int));
    s
}

/// The image cache key of a request: `{size}/{file}`.
pub fn image_cache_key(size: &str, file: &str) -> (r: String)
    ensures
        r@ == size@ + "/"@ + file@,
{
    let mut s = String::new();
    s.append(size);
    s.append("/");
    s.append(file);
    s
}

/// The content type an upstream image is served with: its own when that is an
/// `image/` type, else JPEG.
pub fn image_content_type(header: Option<&str>) -> (r: String)
    ensures
        r@ == (match header {
            Some(h) => if has_prefix(h@, "image/"@) {
                h@
            } else {
                "image/jpeg"@
            },
            None => "image/jpeg"@,
        }),
{
    match header {
        Some(h) => {
            if starts_with(h, "image/") {
                return h.to_string();
            }
        },
        None => {},
    }
    "image/jpeg".to_string()
}

/// The largest upstream image the proxy caches or relays (5 MiB).
pub const MAX_IMAGE_BYTES: usize = 5242880;

/// Refuse an implausibly large upstream image.
pub fn check_image_size(len: usize) -> (r: Result<(), AppError>)
    ensures
        r is Ok <==> len <= MAX_IMAGE_BYTES,
        r matches Err(e) ==> e matches AppError::Internal(m) && m@ == "upstream image unreasonably large ("@
            + crate::text::digits(len as nat) + " bytes)"@,
{
    if len <= MAX_IMAGE_BYTES {
        return Ok(());
    }
    let mut m = String::new();
    m.append("upstream image unreasonably large (");
    crate::text::push_digits(&mut m, len as u64);
    m.append(" bytes)");
    Err(AppError::Internal(m))
}

/// The message for an unknown skip-guide mode.
pub open spec fn bad_mode_message(mode: Seq<char>) -> Seq<char> {
    "invalid mode: "@ + debug_str(mode)
        + "; valid values: completionist, standard, canon-only, binge"@
}

/// The skip-guide mode a `mode` query parameter names (standard by default).
pub fn guide_mode(mode: Option<&str>) -> (r: Result<GuideMode, AppError>)
    ensures
        match mode {
            None => r == Ok::<GuideMode, AppError>(GuideMode::Standard),
            Some(m) => if m@ == "standard"@ {
                r == Ok::<GuideMode, AppError>(GuideMode::Standard)
            } else if m@ == "completionist"@ {
                r == Ok::<GuideMode, AppError>(GuideMode::Completionist)
            } else if m@ == "canon-only"@ {
                r == Ok::<GuideMode, AppError>(GuideMode::CanonOnly)
            } else if m@ == "binge"@ {
                r == Ok::<GuideMode, AppError>(GuideMode::Binge)
            } else {
                r matches Err(e) && is_bad_request(e, bad_mode_message(m@))
            },
        },
{
    match mode {
        None => Ok(GuideMode::Standard),
        Some(m) => {
            if str_eq(m, "standard") {
                Ok(GuideMode::Standard)
            } else if str_eq(m, "completionist") {
                Ok(GuideMode::Completionist)
            } else if str_eq(m, "canon-only") {
                Ok(GuideMode::CanonOnly)
            } else if str_eq(m, "binge") {
                Ok(GuideMode::Binge)
            } else {
                let mut msg = String::new();
                msg.append("invalid mode: ");
                let q = debug_quoted(m);
                msg.append(q.as_str());
                msg.append("; valid values: completionist, standard, canon-only, binge");
                Err(AppError::BadRequest(msg))
            }
        },
    }
}

/// Wire names joined with ", ".
pub open spec fn joined_wires(rs: Seq<VoteReason>) -> Seq<char>
    decreases rs.len(),
{
    if rs.len() == 0 {
        Seq::empty()
    } else if rs.len() == 1 {
        rs[0].wire()
    } else {
        joined_wires(rs.drop_last()) + ", "@ + rs.last().wire()
    }
}

/// The message for a reason tag that does not belong to the vote value.
pub open spec fn bad_reason_message(value: VoteValue, reason: VoteReason) -> Seq<char> {
    "reason "@ + debug_str(reason.wire()) + " is not valid for a "@ + debug_str(value.db_label())
        + " vote; valid reasons are: "@ + joined_wires(VoteReason::reasons_for(value))
}

/// A vote's optional reason tag must be one of the tags valid for its value.
pub fn check_vote_reason(value: VoteValue, reason: Option<VoteReason>) -> (r: Result<(), AppError>)
    ensures
        match reason {
            Some(t) => if VoteReason::reasons_for(value).contains(t) {
                r is Ok
            } else {
                r matches Err(e) && is_bad_request(e, bad_reason_message(value, t))
            },
            None => r is Ok,
        },
{
    match reason {
        None => Ok(()),
        Some(t) => {
            if t.is_valid_for(value) {
                return Ok(());
            }
            let valid = VoteReason::valid_for(value);
            let mut list = String::new();
            let mut i: usize = 0;
            while i < valid.len()
                invariant
                    i <= valid@.len(),
                    valid@ == VoteReason::reasons_for(value),
                    list@ == joined_wires(valid@.take(i as int)),
                decreases valid@.len() - i,
            {
                assert(valid@.take(i + 1).drop_last() == valid@.take(i as int));
                if i > 0 {
                    list.append(", ");
                } else {
                    assert(valid@.take(1) =~= seq![valid@[0]]);
                }
                list.append(valid[i].as_str());
                i = i + 1;
            }
            assert(valid@.take(valid@.len() as int) == valid@);
            let mut m = String::new();
            m.append("reason ");
            let qr = debug_quoted(t.as_str());
            m.append(qr.as_str());
            m.append(" is not valid for a ");
            let qv = debug_quoted(value.as_db());
            m.append(qv.as_str());
            m.append(" vote; valid reasons are: ");
            m.append(list.as_str());
            Err(AppError::BadRequest(m))
        },
    }
}

/// The error for an episode path parameter that is not a UUID.
pub fn invalid_episode_id(id: &str) -> (r: AppError)
    ensures
        is_bad_request(r, "invalid episode id: "@ + debug_str(id@)),
{
    let mut m = String::new();
    m.append("invalid episode id: ");
    let q = debug_quoted(id);
    m.append(q.as_str());
    AppError::BadRequest(m)
}

/// A profile update's screen name: trimmed; blank clears it; more than 40
/// characters is refused.
pub fn screen_name_input(raw: Option<&str>) -> (r: Result<Option<String>, AppError>)
    ensures
        match raw {
            None => r matches Ok(n) && n is None,
            Some(s) => if trim(s@).len() == 0 {
                r matches Ok(n) && n is None
            } else if trim(s@).len() > 40 {
                r matches Err(e) && is_bad_request(e, "screen name must be at most 40 characters"@)
            } else {
                r matches Ok(n) && n matches Some(t) && t@ == trim(s@)
            },
        },
{
    match raw {
        None => Ok(None),
        Some(s) => {
            let t = trim_str(s);
            let n = char_count(t.as_str());
            if n == 0 {
                Ok(None)
            } else if n > 40 {
                Err(AppError::BadRequest("screen name must be at most 40 characters".to_string()))
            } else {
                Ok(Some(t))
            }
        },
    }
}

/// The slug of an Open Graph card request: the path segment without the
/// `.png` its published URLs carry.
pub open spec fn og_slug_of(segment: Seq<char>) -> Seq<char> {
    if segment.len() >= 4 && segment.skip(segment.len() - 4) == ".png"@ {
        segment.take(segment.len() - 4)
    } else {
        segment
    }
}

pub fn og_slug(segment: &str) -> (r: String)
    ensures
        r@ == og_slug_of(segment@),
{
    proof {
        reveal_strlit(".png");
    }
    let v = chars_of(segment);
    let n = v.len();
    if n >= 4 && v[n - 4] == '.' && v[n - 3] == 'p' && v[n - 2] == 'n' && v[n - 1] == 'g' {
        assert(segment@.skip(n - 4) =~= ".png"@);
        collect_range(v.as_slice(), 0, n - 4)
    } else {
        assert(n >= 4 && segment@.skip(n - 4) == ".png"@ ==> (segment@.skip(n - 4)[0] == '.'
            && segment@.skip(n - 4)[1] == 'p' && segment@.skip(n - 4)[2] == 'n' && segment@.skip(
            n - 4,
        )[3] == 'g'));
        let s = collect_range(v.as_slice(), 0, n);
        assert(segment@.subrange(0, n as int) == segment@);
        s
    }
}

/// A redirect with the cookies it sets.
#[derive(Debug, Clone)]
pub struct Redirect {
    pub url: String,
    pub cookies: Vec<CookieSpec>,
}

/// The OAuth callback URI for a provider.
pub open spec fn callback_uri_text(base_url: Seq<char>, provider: Seq<char>) -> Seq<char> {
    base_url + "/api/auth/"@ + provider + "/callback"@
}

pub fn callback_uri(base_url: &str, provider: &str) -> (r: String)
    ensures
        r@ == callback_uri_text(base_url@, provider@),
{
    let mut s = String::new();
    s.append(base_url);
    s.append("/api/auth/");
    s.append(provider);
    s.append("/callback");
    s
}

/// The error for a provider that is unknown or not enabled.
pub open spec fn unknown_provider_message(provider: Seq<char>) -> Seq<char> {
    "unknown or disabled provider: "@ + provider
}

fn unknown_provider(provider: &str) -> (r: AppError)
    ensures
        is_not_found(r, unknown_provider_message(provider@)),
{
    let mut m = String::new();
    m.append("unknown or disabled provider: ");
    m.append(provider);
    AppError::NotFound(m)
}

/// The start of a login: redirect to the provider's authorize URL with a CSRF
/// state, remember the state in a cookie, and the return path too when it is
/// a safe one.
pub fn oauth_login_plan(auth: &AuthConfig, provider: &str, csrf: String, next: Option<&str>) -> (r:
    Result<Redirect, AppError>)
    ensures
        match provider_index(auth.providers@, provider@) {
            None => r matches Err(e) && is_not_found(e, unknown_provider_message(provider@)),
            Some(i) => r matches Ok(rd) && {
                let p = auth.providers@[i];
                let with_next = next matches Some(n) && safe_path(n@);
                &&& rd.url@ == authorize_endpoint_of(p.kind) + "?"@ + form_urlencoded(
                    authorize_query(
                        p.client_id@,
                        p.kind,
                        callback_uri_text(auth.base_url@, provider@),
                        csrf@,
                    ),
                )
                &&& rd.cookies@.len() == (if with_next {
                    2int
                } else {
                    1int
                })
                &&& site_cookie(
                    rd.cookies@[0],
                    cookie_name("fk_oauth_state"@, auth.cookie_secure),
                    csrf@,
                    SameSitePolicy::Lax,
                    auth.cookie_secure,
                    600,
                )
                &&& with_next ==> site_cookie(
                    rd.cookies@[1],
                    cookie_name("fk_oauth_next"@, auth.cookie_secure),
                    next.unwrap()@,
                    SameSitePolicy::Lax,
                    auth.cookie_secure,
                    600,
                )
            },
        },
{
    let p = match auth.provider(provider) {
        Some(p) => p,
        None => return Err(unknown_provider(provider)),
    };
    let redirect_uri = callback_uri(auth.base_url.as_str(), provider);
    let url = p.authorize_url(redirect_uri.as_str(), csrf.as_str());
    let mut cookies: Vec<CookieSpec> = Vec::new();
    cookies.push(state_cookie(csrf, auth.cookie_secure));
    match next {
        Some(n) => match safe_next(n) {
            Some(path) => cookies.push(next_cookie(path, auth.cookie_secure)),
            None => {},
        },
        None => {},
    }
    Ok(Redirect { url, cookies })
}

/// The two cookies that end an OAuth round-trip: the state and return-path
/// cookies, cleared.
pub open spec fn clears_round_trip(cookies: Seq<CookieSpec>, secure: bool) -> bool {
    &&& cookies.len() >= 2
    &&& site_cookie(
        cookies[0],
        cookie_name("fk_oauth_state"@, secure),
        Seq::empty(),
        SameSitePolicy::Strict,
        secure,
        0,
    )
    &&& site_cookie(
        cookies[1],
        cookie_name("fk_oauth_next"@, secure),
        Seq::empty(),
        SameSitePolicy::Strict,
        secure,
        0,
    )
}

/// A failed sign-in: back to the SPA with a generic failure flag (the cause is
/// logged, never reflected), the round-trip cookies cleared.
pub fn signin_failed(auth: &AuthConfig) -> (r: Redirect)
    ensures
        r.url@ == auth.web_post_login_url@ + "?auth_error=signin_failed"@,
        r.cookies@.len() == 2,
        clears_round_trip(r.cookies@, auth.cookie_secure),
{
    let secure = auth.cookie_secure;
    let mut url = String::new();
    url.append(auth.web_post_login_url.as_str());
    url.append("?auth_error=signin_failed");
    let mut cookies: Vec<CookieSpec> = Vec::new();
    cookies.push(clear_cookie(state_cookie_name(secure), secure));
    cookies.push(clear_cookie(next_cookie_name(secure), secure));
    Redirect { url, cookies }
}

/// The next step of an OAuth callback.
#[derive(Debug, Clone)]
pub enum CallbackStep {
    /// The provider reported an error: send the browser back.
    Bounce(Redirect),
    /// Exchange `code` with the provider of this kind, using this redirect URI.
    Exchange { kind: ProviderKind, code: String, redirect_uri: String },
}

/// The decision of an OAuth callback before any upstream call: an unknown
/// provider is not found; a provider error bounces back to the SPA; a missing
/// code or state, or a state that does not match the state cookie, is refused
/// (CSRF); otherwise the code is exchanged.
pub fn oauth_callback_step(
    auth: &AuthConfig,
    provider: &str,
    error: Option<&str>,
    code: Option<String>,
    state: Option<String>,
    state_cookie_value: Option<&str>,
) -> (r: Result<CallbackStep, AppError>)
    ensures
        match provider_index(auth.providers@, provider@) {
            None => r matches Err(e) && is_not_found(e, unknown_provider_message(provider@)),
            Some(i) => if error is Some {
                r matches Ok(CallbackStep::Bounce(rd)) && rd.url@ == auth.web_post_login_url@
                    + "?auth_error=signin_failed"@ && rd.cookies@.len() == 2 && clears_round_trip(
                    rd.cookies@,
                    auth.cookie_secure,
                )
            } else if code is None {
                r matches Err(e) && is_bad_request(e, "missing authorization code"@)
            } else if state is None || state_cookie_value is None {
                r matches Err(e) && is_bad_request(e, "missing OAuth state"@)
            } else if state_cookie_value.unwrap()@ != state.unwrap()@ {
                r matches Err(e) && is_bad_request(e, "OAuth state mismatch"@)
            } else {
                r matches Ok(CallbackStep::Exchange { kind, code: c, redirect_uri }) && kind
                    == auth.providers@[i].kind && c == code.unwrap() && redirect_uri@
                    == callback_uri_text(auth.base_url@, provider@)
            },
        },
{
    let p = match auth.provider(provider) {
        Some(p) => p,
        None => return Err(unknown_provider(provider)),
    };
    if error.is_some() {
        return Ok(CallbackStep::Bounce(signin_failed(auth)));
    }
    let code = match code {
        Some(c) => c,
        None => return Err(AppError::BadRequest("missing authorization code".to_string())),
    };
    let returned = match state {
        Some(s) => s,
        None => return Err(AppError::BadRequest("missing OAuth state".to_string())),
    };
    let expected = match state_cookie_value {
        Some(s) => s,
        None => return Err(AppError::BadRequest("missing OAuth state".to_string())),
    };
    if !str_eq(expected, returned.as_str()) {
        return Err(AppError::BadRequest("OAuth state mismatch".to_string()));
    }
    let redirect_uri = callback_uri(auth.base_url.as_str(), provider);
    Ok(CallbackStep::Exchange { kind: p.kind, code, redirect_uri })
}

/// Where a signed-in user lands: the SPA plus the validated return path, else
/// the SPA's home.
pub open spec fn login_destination(web: Seq<char>, next: Option<Seq<char>>) -> Seq<char> {
    match next {
        Some(n) => if safe_path(n) {
            strip_trailing(web, '/') + n
        } else {
            web
        },
        None => web,
    }
}

/// A completed sign-in: back to where the user started, the round-trip
/// cookies cleared and the session cookie set.
pub fn login_success(auth: &AuthConfig, next: Option<&str>, token: String) -> (r: Redirect)
    ensures
        r.url@ == login_destination(
            auth.web_post_login_url@,
            match next {
                Some(n) => Some(n@),
                None => None,
            },
        ),
        r.cookies@.len() == 3,
        clears_round_trip(r.cookies@, auth.cookie_secure),
        site_cookie(
            r.cookies@[2],
            cookie_name("fk_session"@, auth.cookie_secure),
            token@,
            SameSitePolicy::Strict,
            auth.cookie_secure,
            604800,
        ),
{
    let secure = auth.cookie_secure;
    let path = match next {
        Some(n) => safe_next(n),
        None => None,
    };
    let url = match path {
        Some(p) => {
            let mut u = trim_end_char(auth.web_post_login_url.as_str(), '/');
            u.append(p.as_str());
            u
        },
        None => auth.web_post_login_url.clone(),
    };
    let mut cookies: Vec<CookieSpec> = Vec::new();
    cookies.push(clear_cookie(state_cookie_name(secure), secure));
    cookies.push(clear_cookie(next_cookie_name(secure), secure));
    cookies.push(session_cookie(token, secure));
    Redirect { url, cookies }
}

/// Edge-cache lifetime of catalog data, in seconds.
pub const TTL_CATALOG: u32 = 3600;
/// Edge-cache lifetime of search results, in seconds.
pub const TTL_SEARCH: u32 = 600;
/// Edge-cache lifetime of vote aggregates, in seconds.
pub const TTL_AGGREGATE: u32 = 30;
/// Edge-cache lifetime of the popular-shows list, in seconds.
pub const TTL_POPULAR: u32 = 600;

/// The `Cache-Control` value of a shared-cacheable JSON response.
pub fn cacheable_header(s_maxage: u32) -> (r: String)
    ensures
        r@ == "public, s-maxage="@ + crate::text::digits(s_maxage as nat)
            + ", stale-while-revalidate=60"@,
{
    let mut s = String::new();
    s.append("public, s-maxage=");
    crate::text::push_digits(&mut s, s_maxage as u64);
    s.append(", stale-while-revalidate=60");
    s
}

proof fn lemma_strip_trailing_prefix(s: Seq<char>, c: char)
    ensures
        has_prefix(s, strip_trailing(s, c)),
    decreases s.len(),
{
    if s.len() > 0 && s.last() == c {
        lemma_strip_trailing_prefix(s.drop_last(), c);
        let t = strip_trailing(s.drop_last(), c);
        assert(s.take(t.len() as int) == s.drop_last().take(t.len() as int));
    } else {
        assert(s.take(s.len() as int) == s);
    }
}

/// A login only ever lands within the SPA: the destination starts with the
/// SPA's URL (without its trailing slashes), whatever return path was asked for.
pub proof fn lemma_login_stays_on_site(web: Seq<char>, next: Option<Seq<char>>)
    ensures
        has_prefix(login_destination(web, next), strip_trailing(web, '/')),
{
    let base = strip_trailing(web, '/');
    lemma_strip_trailing_prefix(web, '/');
    match next {
        Some(n) => if safe_path(n) {
            assert((base + n).take(base.len() as int) == base);
        },
        None => {},
    }
}

/// The text of a forwarding header before its first `,`: the hop nearest the
/// client.
pub open spec fn first_field(s: Seq<char>) -> Seq<char>
    decreases s.len(),
{
    if s.len() == 0 || s[0] == ',' {
        Seq::empty()
    } else {
        seq![s[0]] + first_field(s.drop_first())
    }
}

/// The client address a `X-Forwarded-For` value names: its first hop,
/// trimmed, ready to be read as an IP address.
pub fn forwarded_client(xff: &str) -> (r: String)
    ensures
        r@ == trim(first_field(xff@)),
{
    let v = chars_of(xff);
    let mut i: usize = 0;
    assert(v@.take(0) + first_field(v@.skip(0)) =~= first_field(xff@)) by {
        assert(v@.skip(0) =~= xff@);
    }
    while i < v.len() && v[i] != ','
        invariant
            v@ == xff@,
            i <= v@.len(),
            first_field(xff@) == v@.take(i as int) + first_field(v@.skip(i as int)),
        decreases v@.len() - i,
    {
        let ghost rest = v@.skip(i as int);
        assert(rest[0] == v@[i as int]);
        assert(rest.drop_first() =~= v@.skip(i + 1));
        assert(v@.take(i as int) + (seq![v@[i as int]] + first_field(rest.drop_first())) =~= v@.take(
            i + 1,
        ) + first_field(v@.skip(i + 1)));
        i = i + 1;
    }
    if i < v.len() {
        assert(v@.skip(i as int)[0] == ',');
    }
    assert(first_field(xff@) =~= v@.take(i as int));
    let mut head = String::new();
    push_range(&mut head, v.as_slice(), 0, i);
    assert(head@ =~= v@.take(i as int));
    trim_str(head.as_str())
}

/// Which address a request is limited by: the CDN's client header when it
/// holds an address, else the first forwarded hop when that does, else
/// `fallback`. The headers are trusted because the service is reachable only
/// through the proxy that sets them.
pub fn trusted_client<T>(cdn: Option<T>, forwarded: Option<T>, fallback: T) -> (r: T)
    ensures
        r == match cdn {
            Some(a) => a,
            None => match forwarded {
                Some(b) => b,
                None => fallback,
            },
        },
{
    match cdn {
        Some(a) => a,
        None => match forwarded {
            Some(b) => b,
            None => fallback,
        },
    }
}

} // verus!
