use fillerkiller::config::{bind_addr_from_vars, cookie_secure, load_providers, Config};
use fillerkiller::error::AppError;
use fillerkiller::oauth::{
    github_identity, google_identity, upstream_err, GithubEmail, ProviderConfig, ProviderKind,
};
use fillerkiller::tmdb::{image_url, status_error};
use fillerkiller::error::TmdbError;

fn vars(pairs: &[(&str, &str)]) -> Vec<(String, String)> {
    pairs.iter().map(|(k, v)| (k.to_string(), v.to_string())).collect()
}

const SECRET: &str = "0123456789abcdef0123456789abcdef";

#[test]
fn provider_endpoints_and_names() {
    assert_eq!(ProviderKind::Google.as_str(), "google");
    assert_eq!(ProviderKind::Github.as_str(), "github");
    assert_eq!(ProviderKind::Google.env_vars(), ("GOOGLE_CLIENT_ID", "GOOGLE_CLIENT_SECRET"));
    assert_eq!(ProviderKind::Github.token_endpoint(), "https://github.com/login/oauth/access_token");
    assert_eq!(ProviderKind::Google.scope(), "openid email profile");
    assert_eq!(ProviderKind::Google.authorize_endpoint(), "https://accounts.google.com/o/oauth2/v2/auth");
}

#[test]
fn authorize_url_percent_encodes_the_query() {
    let p = ProviderConfig {
        kind: ProviderKind::Google,
        client_id: "id 1".to_string(),
        client_secret: "s".to_string(),
    };
    assert_eq!(
        p.authorize_url("http://localhost:8080/api/auth/google/callback", "a&b"),
        "https://accounts.google.com/o/oauth2/v2/auth?client_id=id+1&redirect_uri=http%3A%2F%2Flocalhost%3A8080%2Fapi%2Fauth%2Fgoogle%2Fcallback&response_type=code&scope=openid+email+profile&state=a%26b"
    );
}

#[test]
fn upstream_errors_leak_nothing() {
    match upstream_err("token exchange", "500 Internal Server Error: secret body") {
        AppError::Upstream(m) => assert_eq!(m, "sign-in is temporarily unavailable; try again"),
        other => panic!("unexpected {other:?}"),
    }
}

#[test]
fn google_requires_a_verified_email() {
    let u = google_identity("sub1".into(), Some("a@b.com".into()), Some(true), Some("Ann".into())).unwrap();
    assert_eq!((u.subject.as_str(), u.email.as_str()), ("sub1", "a@b.com"));
    for verified in [Some(false), None] {
        match google_identity("sub1".into(), Some("a@b.com".into()), verified, None) {
            Err(AppError::Upstream(m)) => assert_eq!(m, "your Google account has no verified email"),
            other => panic!("unexpected {other:?}"),
        }
    }
    assert!(google_identity("sub1".into(), None, Some(true), None).is_err());
}

#[test]
fn github_takes_the_first_primary_verified_email() {
    let e = |email: &str, primary: bool, verified: bool| GithubEmail { email: email.into(), primary, verified };
    let u = github_identity(
        583231,
        None,
        vec![e("x@y", true, false), e("old@y", false, true), e("main@y", true, true), e("z@y", true, true)],
    )
    .unwrap();
    assert_eq!(u.subject, "583231");
    assert_eq!(u.email, "main@y");
    match github_identity(1, None, vec![e("x@y", false, true)]) {
        Err(AppError::Upstream(m)) => assert_eq!(m, "your GitHub account has no verified email"),
        other => panic!("unexpected {other:?}"),
    }
}

#[test]
fn config_requires_secret_database_and_token() {
    assert_eq!(
        Config::from_vars(&vars(&[])).unwrap_err(),
        "missing required env var AUTH_JWT_SECRET (see api/.env.example)"
    );
    assert_eq!(
        Config::from_vars(&vars(&[("AUTH_JWT_SECRET", "  short  ")])).unwrap_err(),
        "AUTH_JWT_SECRET must be at least 32 bytes; generate with: openssl rand -base64 32"
    );
    assert_eq!(
        Config::from_vars(&vars(&[("AUTH_JWT_SECRET", SECRET)])).unwrap_err(),
        "missing required env var DATABASE_URL (see api/.env.example)"
    );
    assert_eq!(
        Config::from_vars(&vars(&[("AUTH_JWT_SECRET", SECRET), ("DATABASE_URL", "pg://")])).unwrap_err(),
        "missing required env var TMDB_API_READ_TOKEN (see api/.env.example)"
    );
}

#[test]
fn config_defaults_and_overrides() {
    let c = Config::from_vars(&vars(&[
        ("AUTH_JWT_SECRET", SECRET),
        ("DATABASE_URL", "pg://db"),
        ("TMDB_API_READ_TOKEN", "tok"),
        ("VOTE_RATE_PER_MINUTE", "x"),
        ("IMPORT_RATE_PER_MINUTE", "+7"),
        ("REFRESH_TTL_HOURS", "-3"),
        ("STATIC_DIR", "  "),
        ("RUN_MIGRATIONS_ON_BOOT", "true"),
    ]))
    .unwrap();
    assert_eq!(c.database_url, "pg://db");
    assert_eq!(c.tmdb_image_base_url, "https://image.tmdb.org/t/p");
    assert_eq!(c.cors_allowed_origin, "http://localhost:5173");
    assert_eq!(c.bind_addr, "0.0.0.0:8080");
    assert!(c.run_migrations_on_boot);
    assert_eq!(c.vote_rate_per_minute, 30);
    assert_eq!(c.import_rate_per_minute, 7);
    assert_eq!(c.refresh_ttl_hours, -3);
    assert_eq!(c.refresh_ttl_hours_ended, 360);
    assert_eq!(c.static_dir, None);
    assert_eq!(c.auth.base_url, "http://localhost:8080");
    assert!(!c.auth.cookie_secure);
    assert!(c.auth.providers.is_empty());
}

#[test]
fn bind_addr_prefers_port() {
    assert_eq!(bind_addr_from_vars(&vars(&[("PORT", " 9090 "), ("BIND_ADDR", "1.2.3.4:1")])), "0.0.0.0:9090");
    assert_eq!(bind_addr_from_vars(&vars(&[("PORT", " "), ("BIND_ADDR", "1.2.3.4:1")])), "1.2.3.4:1");
}

#[test]
fn cookie_secure_follows_the_scheme_unless_overridden() {
    assert!(cookie_secure(&vars(&[]), "https://api.example"));
    assert!(!cookie_secure(&vars(&[]), "http://api.example"));
    assert!(!cookie_secure(&vars(&[("AUTH_COOKIE_SECURE", " false ")]), "https://api.example"));
    assert!(cookie_secure(&vars(&[("AUTH_COOKIE_SECURE", " true ")]), "http://api.example"));
    assert!(cookie_secure(&vars(&[("AUTH_COOKIE_SECURE", "")]), "https://x"));
}

#[test]
fn providers_need_both_credentials() {
    let p = load_providers(&vars(&[
        ("GITHUB_CLIENT_ID", "gid"),
        ("GITHUB_CLIENT_SECRET", "gsec"),
        ("GOOGLE_CLIENT_ID", "only-id"),
        ("GOOGLE_CLIENT_SECRET", ""),
    ]));
    assert_eq!(p.len(), 1);
    assert_eq!(p[0].kind, ProviderKind::Github);
    let p = load_providers(&vars(&[
        ("GITHUB_CLIENT_ID", "gid"),
        ("GITHUB_CLIENT_SECRET", "gsec"),
        ("GOOGLE_CLIENT_ID", "id"),
        ("GOOGLE_CLIENT_SECRET", "sec"),
    ]));
    assert_eq!(p.iter().map(|c| c.kind).collect::<Vec<_>>(), [ProviderKind::Google, ProviderKind::Github]);
    let c = Config::from_vars(&vars(&[
        ("AUTH_JWT_SECRET", SECRET),
        ("DATABASE_URL", "pg://db"),
        ("TMDB_API_READ_TOKEN", "tok"),
        ("GITHUB_CLIENT_ID", "gid"),
        ("GITHUB_CLIENT_SECRET", "gsec"),
    ]))
    .unwrap();
    assert_eq!(c.auth.provider("github").unwrap().client_id, "gid");
    assert!(c.auth.provider("google").is_none());
}

#[test]
fn tmdb_image_urls_and_statuses() {
    assert_eq!(
        image_url("https://image.tmdb.org/t/p", Some("/abc.jpg"), "w342").as_deref(),
        Some("https://image.tmdb.org/t/p/w342/abc.jpg")
    );
    assert_eq!(image_url("https://x", None, "w342"), None);
    assert!(matches!(status_error(429, "/tv/1"), Some(TmdbError::RateLimited)));
    match status_error(404, "/tv/1") {
        Some(TmdbError::Status { status, path }) => assert_eq!((status, path.as_str()), (404, "/tv/1")),
        other => panic!("unexpected {other:?}"),
    }
    assert!(status_error(200, "/tv/1").is_none());
    assert!(matches!(AppError::from_tmdb(TmdbError::RateLimited), AppError::UpstreamRateLimited));
    match AppError::from_tmdb(TmdbError::Status { status: 404, path: "/tv/1".into() }) {
        AppError::NotFound(m) => assert_eq!(m, "we couldn't find that show"),
        other => panic!("unexpected {other:?}"),
    }
}

#[test]
fn error_parts_render_status_code_and_message() {
    assert_eq!(AppError::NotFound("x".into()).parts(), (404, "not_found", "x".to_string()));
    assert_eq!(AppError::Internal("db down".into()).parts(), (500, "internal", "internal server error".to_string()));
    assert_eq!(AppError::RateLimited.parts().0, 429);
    assert_eq!(AppError::Unauthorized.parts(), (401, "unauthorized", "authentication required".to_string()));
}
