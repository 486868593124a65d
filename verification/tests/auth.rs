use fillerkiller::auth::{
    check_token_version, clear_cookie, clear_session_cookie, next_cookie, next_cookie_name,
    session_claims, session_cookie, session_cookie_name, state_cookie, state_cookie_name, unix_now,
    secs_or_zero, SameSitePolicy,
};
use fillerkiller::error::AppError;

#[test]
fn cookie_names_are_host_prefixed_only_when_secure() {
    assert_eq!(session_cookie_name(true), "__Host-fk_session");
    assert_eq!(session_cookie_name(false), "fk_session");
    // __Host- requires Secure; the builders must agree with the names.
    assert!(session_cookie("t".into(), true).secure);
}

#[test]
fn oauth_cookie_names_follow_the_same_rule() {
    assert_eq!(state_cookie_name(true), "__Host-fk_oauth_state");
    assert_eq!(state_cookie_name(false), "fk_oauth_state");
    assert_eq!(next_cookie_name(true), "__Host-fk_oauth_next");
    assert_eq!(next_cookie_name(false), "fk_oauth_next");
}

#[test]
fn cookies_carry_their_attributes() {
    let s = session_cookie("tok".into(), false);
    assert_eq!((s.name.as_str(), s.value.as_str(), s.path.as_str()), ("fk_session", "tok", "/"));
    assert!(s.http_only && !s.secure);
    assert_eq!(s.same_site, SameSitePolicy::Strict);
    assert_eq!(s.max_age_secs, 7 * 24 * 3600);
    let st = state_cookie("abc".into(), true);
    assert_eq!(st.same_site, SameSitePolicy::Lax);
    assert_eq!(st.max_age_secs, 600);
    assert_eq!(next_cookie("/x".into(), true).name, "__Host-fk_oauth_next");
    let c = clear_cookie("fk_oauth_state", false);
    assert_eq!((c.value.as_str(), c.max_age_secs), ("", 0));
    assert_eq!(clear_session_cookie(true).name, "__Host-fk_session");
}

#[test]
fn session_claims_expire_after_seven_days() {
    let c = session_claims("u1", "a@b.com", Some("Ann"), 3, 1000);
    assert_eq!(c.iat, 1000);
    assert_eq!(c.exp, 1000 + 7 * 24 * 3600);
    assert_eq!((c.iss.as_str(), c.aud.as_str()), ("fillerkiller", "fillerkiller-session"));
    assert_eq!(c.name.as_deref(), Some("Ann"));
    assert_eq!(c.ver, 3);
}

#[test]
fn revoked_or_deleted_sessions_are_refused() {
    assert!(check_token_version(3, Some(3)).is_ok());
    assert!(matches!(check_token_version(3, Some(4)), Err(AppError::Unauthorized)));
    assert!(matches!(check_token_version(3, None), Err(AppError::Unauthorized)));
}

#[test]
fn unix_now_is_after_2020() {
    assert!(unix_now() > 1_577_836_800);
}

#[test]
fn secs_or_zero_keeps_the_reading_and_zeroes_a_pre_epoch_clock() {
    assert_eq!(secs_or_zero(Some(1_700_000_000)), 1_700_000_000);
    assert_eq!(secs_or_zero(Some(0)), 0);
    assert_eq!(secs_or_zero(None), 0);
}
