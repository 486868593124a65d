//! Runtime configuration, read from the process environment. The environment is
//! handed in as (name, value) pairs; every default, override and check lives here.
use vstd::prelude::*;
use crate::oauth::{ProviderConfig, ProviderKind, provider_name};
use crate::text::{
    has_prefix, starts_with, parse_decimal, parse_i32, parse_u32, str_eq, trim, trim_str, utf8_at_least, utf8_len, within,
};

verus! {

/// Auth configuration: JWT signing, OAuth redirect/return URLs, and the set of
/// enabled providers.
#[derive(Debug, Clone)]
pub struct AuthConfig {
    pub jwt_secret: String,
    /// Public base URL of this API, used to build OAuth redirect URIs.
    pub base_url: String,
    /// Where to send the browser after a successful login.
    pub web_post_login_url: String,
    /// Whether to mark cookies `Secure`.
    pub cookie_secure: bool,
    pub providers: Vec<ProviderConfig>,
}

/// The first enabled provider named `name`.
pub open spec fn provider_index(providers: Seq<ProviderConfig>, name: Seq<char>) -> Option<int>
    decreases providers.len(),
{
    if providers.len() == 0 {
        None
    } else {
        match provider_index(providers.drop_last(), name) {
            Some(i) => Some(i),
            None => if provider_name(providers.last().kind) == name {
                Some(providers.len() - 1)
            } else {
                None
            },
        }
    }
}

proof fn lemma_provider_found(p: Seq<ProviderConfig>, name: Seq<char>, i: int)
    requires
        0 <= i < p.len(),
        provider_index(p.take(i), name) is None,
        provider_name(p[i].kind) == name,
    ensures
        provider_index(p, name) == Some(i),
    decreases p.len() - i,
{
    if i == p.len() - 1 {
        assert(p.drop_last() == p.take(i));
    } else {
        assert(p.drop_last().take(i) == p.take(i));
        lemma_provider_found(p.drop_last(), name, i);
    }
}

impl AuthConfig {
    /// The enabled provider with this name.
    pub fn provider(&self, name: &str) -> (r: Option<&ProviderConfig>)
        ensures
            match provider_index(self.providers@, name@) {
                Some(i) => r == Some(&self.providers@[i]),
                None => r is None,
            },
    {
        let mut i: usize = 0;
        while i < self.providers.len()
            invariant
                i <= self.providers@.len(),
                provider_index(self.providers@.take(i as int), name@) is None,
            decreases self.providers@.len() - i,
        {
            assert(self.providers@.take(i + 1).drop_last() == self.providers@.take(i as int));
            if str_eq(self.providers[i].kind.as_str(), name) {
                proof {
                    lemma_provider_found(self.providers@, name@, i as int);
                }
                return Some(&self.providers[i]);
            }
            i = i + 1;
        }
        assert(self.providers@.take(self.providers@.len() as int) == self.providers@);
        None
    }
}

/// The process configuration.
#[derive(Debug, Clone)]
pub struct Config {
    /// Postgres connection string.
    pub database_url: String,
    /// TMDB v4 read token (server-side only).
    pub tmdb_token: String,
    /// TMDB image CDN base, no trailing slash.
    pub tmdb_image_base_url: String,
    /// Origin allowed by CORS: the SPA's origin.
    pub cors_allowed_origin: String,
    /// Address to bind.
    pub bind_addr: String,
    /// Apply migrations on boot.
    pub run_migrations_on_boot: bool,
    /// Max vote writes per client IP per minute.
    pub vote_rate_per_minute: u32,
    /// Max TMDB import-on-demand fan-outs per instance per minute.
    pub import_rate_per_minute: u32,
    /// Refresh cadence for a recent show, in hours.
    pub refresh_ttl_hours: i32,
    /// Refresh cadence for an ended show, in hours.
    pub refresh_ttl_hours_ended: i32,
    /// Directory of the built SPA to serve, if any.
    pub static_dir: Option<String>,
    pub auth: AuthConfig,
}

/// The value of the first variable named `key`.
pub open spec fn env_get(vars: Seq<(String, String)>, key: Seq<char>) -> Option<Seq<char>>
    decreases vars.len(),
{
    if vars.len() == 0 {
        None
    } else {
        match env_get(vars.drop_last(), key) {
            Some(v) => Some(v),
            None => if vars.last().0@ == key {
                Some(vars.last().1@)
            } else {
                None
            },
        }
    }
}

/// A variable's value, else a default.
pub open spec fn env_or(vars: Seq<(String, String)>, key: Seq<char>, default: Seq<char>) -> Seq<
    char,
> {
    match env_get(vars, key) {
        Some(v) => v,
        None => default,
    }
}

/// A variable read as an unsigned number, else (absent or unreadable) a default.
pub open spec fn env_u32(vars: Seq<(String, String)>, key: Seq<char>, default: int) -> int {
    match env_get(vars, key) {
        Some(v) => match within(parse_decimal(v, false), 0, u32::MAX as int) {
            Some(x) => x,
            None => default,
        },
        None => default,
    }
}

/// A variable read as a signed number, else (absent or unreadable) a default.
pub open spec fn env_i32(vars: Seq<(String, String)>, key: Seq<char>, default: int) -> int {
    match env_get(vars, key) {
        Some(v) => match within(parse_decimal(v, true), i32::MIN as int, i32::MAX as int) {
            Some(x) => x,
            None => default,
        },
        None => default,
    }
}

/// A variable that is present with more than whitespace in it.
pub open spec fn env_set(vars: Seq<(String, String)>, key: Seq<char>) -> Option<Seq<char>> {
    match env_get(vars, key) {
        Some(v) => if trim(v).len() > 0 {
            Some(v)
        } else {
            None
        },
        None => None,
    }
}

/// The value of the first variable named `key`.
pub fn env_lookup(vars: &[(String, String)], key: &str) -> (r: Option<String>)
    ensures
        (match r {
            Some(v) => Some(v@),
            None => None,
        }) == env_get(vars@, key@),
{
    let mut i: usize = 0;
    while i < vars.len()
        invariant
            i <= vars@.len(),
            env_get(vars@.take(i as int), key@) is None,
        decreases vars@.len() - i,
    {
        assert(vars@.take(i + 1).drop_last() == vars@.take(i as int));
        if str_eq(vars[i].0.as_str(), key) {
            proof {
                lemma_env_found(vars@, key@, i as int);
            }
            return Some(vars[i].1.clone());
        }
        i = i + 1;
    }
    assert(vars@.take(vars@.len() as int) == vars@);
    None
}

proof fn lemma_env_found(vars: Seq<(String, String)>, key: Seq<char>, i: int)
    requires
        0 <= i < vars.len(),
        env_get(vars.take(i), key) is None,
        vars[i].0@ == key,
    ensures
        env_get(vars, key) == Some(vars[i].1@),
    decreases vars.len() - i,
{
    if i == vars.len() - 1 {
        assert(vars.drop_last() == vars.take(i));
    } else {
        assert(vars.drop_last().take(i) == vars.take(i));
        lemma_env_found(vars.drop_last(), key, i);
    }
}

fn env_or_default(vars: &[(String, String)], key: &str, default: &str) -> (r: String)
    ensures
        r@ == env_or(vars@, key@, default@),
{
    match env_lookup(vars, key) {
        Some(v) => v,
        None => default.to_string(),
    }
}

fn env_set_value(vars: &[(String, String)], key: &str) -> (r: Option<String>)
    ensures
        (match r {
            Some(v) => Some(v@),
            None => None,
        }) == env_set(vars@, key@),
{
    match env_lookup(vars, key) {
        Some(v) => {
            let t = trim_str(v.as_str());
            if t.as_str().is_empty() {
                None
            } else {
                Some(v)
            }
        },
        None => None,
    }
}

fn env_number_u32(vars: &[(String, String)], key: &str, default: u32) -> (r: u32)
    ensures
        r as int == env_u32(vars@, key@, default as int),
{
    match env_lookup(vars, key) {
        Some(v) => match parse_u32(v.as_str()) {
            Some(x) => x,
            None => default,
        },
        None => default,
    }
}

fn env_number_i32(vars: &[(String, String)], key: &str, default: i32) -> (r: i32)
    ensures
        r as int == env_i32(vars@, key@, default as int),
{
    match env_lookup(vars, key) {
        Some(v) => match parse_i32(v.as_str()) {
            Some(x) => x,
            None => default,
        },
        None => default,
    }
}

/// The bind address: `0.0.0.0:$PORT` when `PORT` is set (serverless hosts
/// inject it), else `BIND_ADDR`, else `0.0.0.0:8080`.
pub open spec fn bind_addr_of(vars: Seq<(String, String)>) -> Seq<char> {
    match env_set(vars, "PORT"@) {
        Some(p) => "0.0.0.0:"@ + trim(p),
        None => env_or(vars, "BIND_ADDR"@, "0.0.0.0:8080"@),
    }
}

/// Resolve the bind address.
pub fn bind_addr_from_vars(vars: &[(String, String)]) -> (r: String)
    ensures
        r@ == bind_addr_of(vars@),
{
    match env_set_value(vars, "PORT") {
        Some(p) => {
            let mut s = String::new();
            s.append("0.0.0.0:");
            let t = trim_str(p.as_str());
            s.append(t.as_str());
            s
        },
        None => env_or_default(vars, "BIND_ADDR", "0.0.0.0:8080"),
    }
}

/// Whether session cookies are marked `Secure`: an explicit
/// `AUTH_COOKIE_SECURE` decides (only `true` means yes); otherwise secure
/// exactly when the public base URL is `https://` (fail-closed).
pub open spec fn cookie_secure_of(vars: Seq<(String, String)>, base_url: Seq<char>) -> bool {
    match env_set(vars, "AUTH_COOKIE_SECURE"@) {
        Some(v) => trim(v) == "true"@,
        None => has_prefix(base_url, "https://"@),
    }
}

/// Whether session cookies are marked `Secure`.
pub fn cookie_secure(vars: &[(String, String)], base_url: &str) -> (r: bool)
    ensures
        r == cookie_secure_of(vars@, base_url@),
{
    match env_set_value(vars, "AUTH_COOKIE_SECURE") {
        Some(v) => {
            let t = trim_str(v.as_str());
            str_eq(t.as_str(), "true")
        },
        None => starts_with(base_url, "https://"),
    }
}

/// A provider is enabled when both its client id and secret are set and non-empty.
pub open spec fn provider_from(vars: Seq<(String, String)>, kind: ProviderKind) -> Option<
    (Seq<char>, Seq<char>),
> {
    let (id_var, secret_var) = match kind {
        ProviderKind::Google => ("GOOGLE_CLIENT_ID"@, "GOOGLE_CLIENT_SECRET"@),
        ProviderKind::Github => ("GITHUB_CLIENT_ID"@, "GITHUB_CLIENT_SECRET"@),
    };
    match (env_get(vars, id_var), env_get(vars, secret_var)) {
        (Some(id), Some(secret)) => if id.len() > 0 && secret.len() > 0 {
            Some((id, secret))
        } else {
            None
        },
        _ => None,
    }
}

/// The credentials of the enabled providers, Google first.
pub open spec fn providers_of(vars: Seq<(String, String)>) -> Seq<(ProviderKind, Seq<char>, Seq<char>)> {
    let g: Seq<(ProviderKind, Seq<char>, Seq<char>)> = match provider_from(vars, ProviderKind::Google) {
        Some((id, secret)) => seq![(ProviderKind::Google, id, secret)],
        None => Seq::empty(),
    };
    match provider_from(vars, ProviderKind::Github) {
        Some((id, secret)) => g.push((ProviderKind::Github, id, secret)),
        None => g,
    }
}

/// The view of a provider list.
pub open spec fn providers_view(p: Seq<ProviderConfig>) -> Seq<(ProviderKind, Seq<char>, Seq<char>)> {
    p.map_values(|c: ProviderConfig| (c.kind, c.client_id@, c.client_secret@))
}

fn provider_for(vars: &[(String, String)], kind: ProviderKind) -> (r: Option<ProviderConfig>)
    ensures
        (match r {
            Some(c) => Some((c.client_id@, c.client_secret@)),
            None => None,
        }) == provider_from(vars@, kind),
        r matches Some(c) ==> c.kind == kind,
{
    let (id_var, secret_var) = kind.env_vars();
    match (env_lookup(vars, id_var), env_lookup(vars, secret_var)) {
        (Some(client_id), Some(client_secret)) => {
            if !client_id.as_str().is_empty() && !client_secret.as_str().is_empty() {
                Some(ProviderConfig { kind, client_id, client_secret })
            } else {
                None
            }
        },
        _ => None,
    }
}

/// Build the list of enabled OAuth providers.
pub fn load_providers(vars: &[(String, String)]) -> (r: Vec<ProviderConfig>)
    ensures
        providers_view(r@) == providers_of(vars@),
{
    let mut providers: Vec<ProviderConfig> = Vec::new();
    match provider_for(vars, ProviderKind::Google) {
        Some(p) => providers.push(p),
        None => {},
    }
    let ghost g = providers@;
    assert(providers_view(g) =~= match provider_from(vars@, ProviderKind::Google) {
        Some((id, secret)) => seq![(ProviderKind::Google, id, secret)],
        None => Seq::<(ProviderKind, Seq<char>, Seq<char>)>::empty(),
    });
    match provider_for(vars, ProviderKind::Github) {
        Some(p) => {
            providers.push(p);
            assert(providers_view(providers@) =~= providers_view(g).push(
                (ProviderKind::Github, p.client_id@, p.client_secret@),
            ));
        },
        None => {},
    }
    providers
}

/// The message of a missing required variable.
pub open spec fn missing_var_message(key: Seq<char>) -> Seq<char> {
    "missing required env var "@ + key + " (see api/.env.example)"@
}

/// The message of a JWT secret that is too short.
pub open spec fn weak_secret_message() -> Seq<char> {
    "AUTH_JWT_SECRET must be at least 32 bytes; generate with: openssl rand -base64 32"@
}

/// Why a configuration is refused, if it is: a missing `AUTH_JWT_SECRET`, one
/// under 32 bytes once trimmed, then a missing database URL or TMDB token.
pub open spec fn config_error(vars: Seq<(String, String)>) -> Option<Seq<char>> {
    match env_get(vars, "AUTH_JWT_SECRET"@) {
        None => Some(missing_var_message("AUTH_JWT_SECRET"@)),
        Some(secret) => if utf8_len(trim(secret)) < 32 {
            Some(weak_secret_message())
        } else if env_get(vars, "DATABASE_URL"@) is None {
            Some(missing_var_message("DATABASE_URL"@))
        } else if env_get(vars, "TMDB_API_READ_TOKEN"@) is None {
            Some(missing_var_message("TMDB_API_READ_TOKEN"@))
        } else {
            None
        },
    }
}

/// What a configuration read from `vars` holds.
pub open spec fn config_from(vars: Seq<(String, String)>, c: Config) -> bool {
    let base_url = env_or(vars, "AUTH_BASE_URL"@, "http://localhost:8080"@);
    &&& env_get(vars, "AUTH_JWT_SECRET"@) == Some(c.auth.jwt_secret@)
    &&& env_get(vars, "DATABASE_URL"@) == Some(c.database_url@)
    &&& env_get(vars, "TMDB_API_READ_TOKEN"@) == Some(c.tmdb_token@)
    &&& c.tmdb_image_base_url@ == env_or(
        vars,
        "TMDB_IMAGE_BASE_URL"@,
        "https://image.tmdb.org/t/p"@,
    )
    &&& c.cors_allowed_origin@ == env_or(vars, "CORS_ALLOWED_ORIGIN"@, "http://localhost:5173"@)
    &&& c.bind_addr@ == bind_addr_of(vars)
    &&& c.run_migrations_on_boot == (env_or(vars, "RUN_MIGRATIONS_ON_BOOT"@, "false"@) == "true"@)
    &&& c.vote_rate_per_minute == env_u32(vars, "VOTE_RATE_PER_MINUTE"@, 30)
    &&& c.import_rate_per_minute == env_u32(vars, "IMPORT_RATE_PER_MINUTE"@, 20)
    &&& c.refresh_ttl_hours == env_i32(vars, "REFRESH_TTL_HOURS"@, 72)
    &&& c.refresh_ttl_hours_ended == env_i32(vars, "REFRESH_TTL_HOURS_ENDED"@, 360)
    &&& (match c.static_dir {
        Some(d) => Some(d@),
        None => None,
    }) == env_set(vars, "STATIC_DIR"@)
    &&& c.auth.base_url@ == base_url
    &&& c.auth.web_post_login_url@ == env_or(
        vars,
        "WEB_POST_LOGIN_URL"@,
        "http://localhost:5173"@,
    )
    &&& c.auth.cookie_secure == cookie_secure_of(vars, base_url)
    &&& providers_view(c.auth.providers@) == providers_of(vars)
}

fn missing_var(key: &str) -> (r: String)
    ensures
        r@ == missing_var_message(key@),
{
    let mut m = String::new();
    m.append("missing required env var ");
    m.append(key);
    m.append(" (see api/.env.example)");
    m
}

impl Config {
    /// The configuration the environment `vars` describes, or why it is refused.
    pub fn from_vars(vars: &[(String, String)]) -> (r: Result<Config, String>)
        ensures
            match config_error(vars@) {
                Some(m) => r matches Err(e) && e@ == m,
                None => r matches Ok(c) && config_from(vars@, c),
            },
    {
        let jwt_secret = match env_lookup(vars, "AUTH_JWT_SECRET") {
            Some(s) => s,
            None => return Err(missing_var("AUTH_JWT_SECRET")),
        };
        let trimmed = trim_str(jwt_secret.as_str());
        if !utf8_at_least(trimmed.as_str(), 32) {
            let mut m = String::new();
            m.append(
                "AUTH_JWT_SECRET must be at least 32 bytes; generate with: openssl rand -base64 32",
            );
            assert(m@ =~= weak_secret_message());
            return Err(m);
        }
        let database_url = match env_lookup(vars, "DATABASE_URL") {
            Some(s) => s,
            None => return Err(missing_var("DATABASE_URL")),
        };
        let tmdb_token = match env_lookup(vars, "TMDB_API_READ_TOKEN") {
            Some(s) => s,
            None => return Err(missing_var("TMDB_API_READ_TOKEN")),
        };
        let migrate = env_or_default(vars, "RUN_MIGRATIONS_ON_BOOT", "false");
        let base_url = env_or_default(vars, "AUTH_BASE_URL", "http://localhost:8080");
        let secure = cookie_secure(vars, base_url.as_str());
        let auth = AuthConfig {
            jwt_secret,
            cookie_secure: secure,
            web_post_login_url: env_or_default(vars, "WEB_POST_LOGIN_URL", "http://localhost:5173"),
            base_url,
            providers: load_providers(vars),
        };
        Ok(
            Config {
                database_url,
                tmdb_token,
                tmdb_image_base_url: env_or_default(
                    vars,
                    "TMDB_IMAGE_BASE_URL",
                    "https://image.tmdb.org/t/p",
                ),
                cors_allowed_origin: env_or_default(
                    vars,
                    "CORS_ALLOWED_ORIGIN",
                    "http://localhost:5173",
                ),
                bind_addr: bind_addr_from_vars(vars),
                run_migrations_on_boot: str_eq(migrate.as_str(), "true"),
                vote_rate_per_minute: env_number_u32(vars, "VOTE_RATE_PER_MINUTE", 30),
                import_rate_per_minute: env_number_u32(vars, "IMPORT_RATE_PER_MINUTE", 20),
                refresh_ttl_hours: env_number_i32(vars, "REFRESH_TTL_HOURS", 72),
                refresh_ttl_hours_ended: env_number_i32(vars, "REFRESH_TTL_HOURS_ENDED", 360),
                static_dir: env_set_value(vars, "STATIC_DIR"),
                auth,
            },
        )
    }
}

} // verus!
