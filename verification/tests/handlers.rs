use fillerkiller::auth::SameSitePolicy;
use fillerkiller::config::AuthConfig;
use fillerkiller::error::AppError;
use fillerkiller::handlers::{
    cacheable_header, callback_uri, check_image_size, check_vote_reason, guide_mode,
    image_cache_key, image_content_type, invalid_episode_id, login_success, oauth_callback_step,
    oauth_login_plan, og_slug, popular_limit, poster_file, safe_next, screen_name_input,
    search_query, signin_failed, valid_image_request, CallbackStep, forwarded_client,
    trusted_client,
};
use fillerkiller::oauth::{ProviderConfig, ProviderKind};
use fillerkiller::scoring::{GuideMode, VoteReason, VoteValue};

#[test]
fn image_request_validation_blocks_proxy_abuse() {
    assert!(valid_image_request("w154", "lP4zwr0F7hWTbAFltfoFTc2AxRG.jpg"));
    assert!(valid_image_request("w342", "a1B2.png"));
    assert!(valid_image_request("w92", "x.jpeg"));
    // Unknown size, traversal, nested paths, query smuggling, wrong/missing
    // extension, oversized stem — all rejected.
    assert!(!valid_image_request("original", "a.jpg"));
    assert!(!valid_image_request("w154", "..jpg"));
    assert!(!valid_image_request("w154", "a/b.jpg"));
    assert!(!valid_image_request("w154", "a.jpg?x=1"));
    assert!(!valid_image_request("w154", "a.svg"));
    assert!(!valid_image_request("w154", "a"));
    assert!(!valid_image_request("w154", &format!("{}.jpg", "a".repeat(65))));
}

#[test]
fn image_request_stem_of_exactly_64_is_allowed() {
    assert!(valid_image_request("w500", &format!("{}.jpg", "a".repeat(64))));
    assert!(!valid_image_request("w500", "é.jpg"));
    assert!(!valid_image_request("w500", "a.b.jpg"));
}

#[test]
fn safe_next_allows_relative_and_blocks_offsite() {
    assert_eq!(safe_next("/shows/24").as_deref(), Some("/shows/24"));
    assert_eq!(safe_next("/account?tab=guides").as_deref(), Some("/account?tab=guides"));
    // Off-site / protocol-relative / scheme / control-char / non-relative are rejected.
    assert!(safe_next("//evil.example").is_none());
    assert!(safe_next("https://evil.example").is_none());
    assert!(safe_next("/a\\b").is_none());
    assert!(safe_next("/a\nb").is_none());
    assert!(safe_next("not-relative").is_none());
    assert!(safe_next("").is_none());
}

#[test]
fn safe_next_counts_bytes_up_to_512() {
    let ok = format!("/{}", "a".repeat(511));
    assert!(safe_next(&ok).is_some());
    let long = format!("/{}", "a".repeat(512));
    assert!(safe_next(&long).is_none());
    // 255 two-byte characters plus the slash: 511 bytes.
    assert!(safe_next(&format!("/{}", "é".repeat(255))).is_some());
    assert!(safe_next(&format!("/{}", "é".repeat(256))).is_none());
    assert!(safe_next("/tab\there").is_none());
}

#[test]
fn safe_next_refuses_every_control_character() {
    assert!(safe_next("/a\u{7}b").is_none());
    assert!(safe_next("/a\u{0}b").is_none());
    assert!(safe_next("/a\u{1f}b").is_none());
    assert!(safe_next("/a\u{7f}b").is_none());
    assert!(safe_next("/a\u{85}b").is_none());
    assert!(safe_next("/a\u{9f}b").is_none());
    // The first characters past either range stay.
    assert_eq!(safe_next("/a b").as_deref(), Some("/a b"));
    assert_eq!(safe_next("/a\u{a0}b").as_deref(), Some("/a\u{a0}b"));
}

fn bad_request(e: AppError) -> String {
    match e {
        AppError::BadRequest(m) => m,
        other => panic!("not a bad request: {other:?}"),
    }
}

#[test]
fn search_query_is_trimmed_and_bounded() {
    assert_eq!(search_query("  naruto ").unwrap(), "naruto");
    assert_eq!(bad_request(search_query("   ").unwrap_err()), "query parameter `q` is required");
    assert_eq!(bad_request(search_query(&"x".repeat(201)).unwrap_err()), "query parameter `q` is too long");
    assert!(search_query(&"é".repeat(200)).is_ok());
}

#[test]
fn popular_limit_defaults_and_clamps() {
    assert_eq!(popular_limit(None), 12);
    assert_eq!(popular_limit(Some(0)), 1);
    assert_eq!(popular_limit(Some(-5)), 1);
    assert_eq!(popular_limit(Some(30)), 30);
    assert_eq!(popular_limit(Some(500)), 50);
}

#[test]
fn image_proxy_helpers() {
    assert_eq!(poster_file("//abc.jpg"), "abc.jpg");
    assert_eq!(poster_file("abc.jpg"), "abc.jpg");
    assert_eq!(image_cache_key("w342", "abc.jpg"), "w342/abc.jpg");
    assert_eq!(image_content_type(Some("image/png")), "image/png");
    assert_eq!(image_content_type(Some("text/html")), "image/jpeg");
    assert_eq!(image_content_type(None), "image/jpeg");
    assert!(check_image_size(5 * 1024 * 1024).is_ok());
    match check_image_size(5 * 1024 * 1024 + 1) {
        Err(AppError::Internal(m)) => assert_eq!(m, "upstream image unreasonably large (5242881 bytes)"),
        other => panic!("unexpected {other:?}"),
    }
    assert_eq!(cacheable_header(600), "public, s-maxage=600, stale-while-revalidate=60");
}

#[test]
fn guide_mode_parses_the_four_modes() {
    assert_eq!(guide_mode(None).unwrap(), GuideMode::Standard);
    assert_eq!(guide_mode(Some("standard")).unwrap(), GuideMode::Standard);
    assert_eq!(guide_mode(Some("completionist")).unwrap(), GuideMode::Completionist);
    assert_eq!(guide_mode(Some("canon-only")).unwrap(), GuideMode::CanonOnly);
    assert_eq!(guide_mode(Some("binge")).unwrap(), GuideMode::Binge);
    assert_eq!(
        bad_request(guide_mode(Some("fast")).unwrap_err()),
        "invalid mode: \"fast\"; valid values: completionist, standard, canon-only, binge"
    );
}

#[test]
fn vote_reason_must_match_the_value() {
    assert!(check_vote_reason(VoteValue::Filler, None).is_ok());
    assert!(check_vote_reason(VoteValue::Filler, Some(VoteReason::Recap)).is_ok());
    assert_eq!(
        bad_request(check_vote_reason(VoteValue::Canon, Some(VoteReason::Recap)).unwrap_err()),
        "reason \"recap\" is not valid for a \"CANON\" vote; valid reasons are: major-plot, character-development, arc-setup"
    );
}

#[test]
fn episode_id_errors_quote_the_input() {
    assert_eq!(bad_request(invalid_episode_id("a\"b")), "invalid episode id: \"a\\\"b\"");
}

#[test]
fn screen_names_are_trimmed_and_bounded() {
    assert_eq!(screen_name_input(None).unwrap(), None);
    assert_eq!(screen_name_input(Some("   ")).unwrap(), None);
    assert_eq!(screen_name_input(Some(" Ann ")).unwrap().as_deref(), Some("Ann"));
    assert!(screen_name_input(Some(&"n".repeat(40))).is_ok());
    assert_eq!(
        bad_request(screen_name_input(Some(&"n".repeat(41))).unwrap_err()),
        "screen name must be at most 40 characters"
    );
}

#[test]
fn og_slug_strips_one_png_suffix() {
    assert_eq!(og_slug("breaking-bad.png"), "breaking-bad");
    assert_eq!(og_slug("breaking-bad"), "breaking-bad");
    assert_eq!(og_slug("a.png.png"), "a.png");
}

fn auth(secure: bool) -> AuthConfig {
    AuthConfig {
        jwt_secret: "s".repeat(32),
        base_url: "https://api.example".to_string(),
        web_post_login_url: "https://app.example/".to_string(),
        cookie_secure: secure,
        providers: vec![ProviderConfig {
            kind: ProviderKind::Github,
            client_id: "cid".to_string(),
            client_secret: "sec".to_string(),
        }],
    }
}

#[test]
fn login_plan_sets_state_and_safe_next() {
    let a = auth(true);
    let plan = oauth_login_plan(&a, "github", "csrf1".to_string(), Some("/shows/1")).unwrap();
    assert!(plan.url.starts_with("https://github.com/login/oauth/authorize?client_id=cid&redirect_uri=https%3A%2F%2Fapi.example%2Fapi%2Fauth%2Fgithub%2Fcallback&response_type=code&scope=read%3Auser+user%3Aemail&state=csrf1"), "{}", plan.url);
    assert_eq!(plan.cookies.len(), 2);
    assert_eq!(plan.cookies[0].name, "__Host-fk_oauth_state");
    assert_eq!(plan.cookies[0].value, "csrf1");
    assert_eq!(plan.cookies[0].same_site, SameSitePolicy::Lax);
    assert_eq!(plan.cookies[1].name, "__Host-fk_oauth_next");
    let plan = oauth_login_plan(&a, "github", "c".to_string(), Some("//evil")).unwrap();
    assert_eq!(plan.cookies.len(), 1);
    match oauth_login_plan(&a, "google", "c".to_string(), None) {
        Err(AppError::NotFound(m)) => assert_eq!(m, "unknown or disabled provider: google"),
        other => panic!("unexpected {other:?}"),
    }
}

#[test]
fn callback_checks_state_before_exchanging() {
    let a = auth(false);
    let step = oauth_callback_step(&a, "github", None, Some("code".into()), Some("st".into()), Some("st")).unwrap();
    match step {
        CallbackStep::Exchange { kind, code, redirect_uri } => {
            assert_eq!(kind, ProviderKind::Github);
            assert_eq!(code, "code");
            assert_eq!(redirect_uri, callback_uri("https://api.example", "github"));
            assert_eq!(redirect_uri, "https://api.example/api/auth/github/callback");
        }
        other => panic!("unexpected {other:?}"),
    }
    let err = oauth_callback_step(&a, "github", None, Some("code".into()), Some("st".into()), Some("other")).unwrap_err();
    assert_eq!(bad_request(err), "OAuth state mismatch");
    let err = oauth_callback_step(&a, "github", None, Some("code".into()), Some("st".into()), None).unwrap_err();
    assert_eq!(bad_request(err), "missing OAuth state");
    let err = oauth_callback_step(&a, "github", None, None, Some("st".into()), Some("st")).unwrap_err();
    assert_eq!(bad_request(err), "missing authorization code");
    match oauth_callback_step(&a, "github", Some("access_denied"), None, None, None).unwrap() {
        CallbackStep::Bounce(r) => {
            assert_eq!(r.url, "https://app.example/?auth_error=signin_failed");
            assert_eq!(r.cookies.len(), 2);
            assert_eq!(r.cookies[0].name, "fk_oauth_state");
            assert_eq!(r.cookies[0].max_age_secs, 0);
        }
        other => panic!("unexpected {other:?}"),
    }
}

#[test]
fn login_success_returns_to_the_safe_path() {
    let a = auth(true);
    let r = login_success(&a, Some("/shows/24"), "tok".to_string());
    assert_eq!(r.url, "https://app.example/shows/24");
    assert_eq!(r.cookies.len(), 3);
    assert_eq!(r.cookies[2].name, "__Host-fk_session");
    assert_eq!(r.cookies[2].value, "tok");
    assert_eq!(r.cookies[2].max_age_secs, 604800);
    let r = login_success(&a, Some("https://evil"), "tok".to_string());
    assert_eq!(r.url, "https://app.example/");
    let r = signin_failed(&a);
    assert_eq!(r.cookies[1].name, "__Host-fk_oauth_next");
}

#[test]
fn forwarded_client_is_the_first_hop_trimmed() {
    assert_eq!(forwarded_client(" 203.0.113.7 , 10.0.0.1, 10.0.0.2"), "203.0.113.7");
    assert_eq!(forwarded_client("198.51.100.4"), "198.51.100.4");
    assert_eq!(forwarded_client(",10.0.0.1"), "");
    assert_eq!(forwarded_client(""), "");
}

#[test]
fn trusted_client_prefers_the_cdn_then_the_forwarded_hop() {
    assert_eq!(trusted_client(Some(1), Some(2), 0), 1);
    assert_eq!(trusted_client(None, Some(2), 0), 2);
    assert_eq!(trusted_client(None::<u8>, None, 0), 0);
}
