//! OAuth 2.0 Authorization Code flow for Google and GitHub: the providers'
//! endpoints, the authorize URL, and which identity a provider's answer yields.
use vstd::prelude::*;
use crate::error::{AppError, is_upstream};
use crate::text::{int_string, int_text};

verus! {

/// A supported OAuth provider.
#[derive(Debug, Clone, Copy, PartialEq, Eq, Structural)]
pub enum ProviderKind {
    Google,
    Github,
}

/// A provider's name in URLs and the identity table.
pub open spec fn provider_name(k: ProviderKind) -> Seq<char> {
    match k {
        ProviderKind::Google => "google"@,
        ProviderKind::Github => "github"@,
    }
}

/// A provider's authorize endpoint.
pub open spec fn authorize_endpoint_of(k: ProviderKind) -> Seq<char> {
    match k {
        ProviderKind::Google => "https://accounts.google.com/o/oauth2/v2/auth"@,
        ProviderKind::Github => "https://github.com/login/oauth/authorize"@,
    }
}

/// A provider's scopes.
pub open spec fn scope_of(k: ProviderKind) -> Seq<char> {
    match k {
        ProviderKind::Google => "openid email profile"@,
        ProviderKind::Github => "read:user user:email"@,
    }
}

impl ProviderKind {
    pub fn as_str(&self) -> (r: &'static str)
        ensures
            r@ == provider_name(*self),
    {
        match self {
            ProviderKind::Google => "google",
            ProviderKind::Github => "github",
        }
    }

    /// (client_id env var, client_secret env var).
    pub fn env_vars(&self) -> (r: (&'static str, &'static str))
        ensures
            (r.0@, r.1@) == (match *self {
                ProviderKind::Google => ("GOOGLE_CLIENT_ID"@, "GOOGLE_CLIENT_SECRET"@),
                ProviderKind::Github => ("GITHUB_CLIENT_ID"@, "GITHUB_CLIENT_SECRET"@),
            }),
    {
        match self {
            ProviderKind::Google => ("GOOGLE_CLIENT_ID", "GOOGLE_CLIENT_SECRET"),
            ProviderKind::Github => ("GITHUB_CLIENT_ID", "GITHUB_CLIENT_SECRET"),
        }
    }

    pub fn authorize_endpoint(&self) -> (r: &'static str)
        ensures
            r@ == authorize_endpoint_of(*self),
    {
        match self {
            ProviderKind::Google => "https://accounts.google.com/o/oauth2/v2/auth",
            ProviderKind::Github => "https://github.com/login/oauth/authorize",
        }
    }

    pub fn token_endpoint(&self) -> (r: &'static str)
        ensures
            r@ == (match *self {
                ProviderKind::Google => "https://oauth2.googleapis.com/token"@,
                ProviderKind::Github => "https://github.com/login/oauth/access_token"@,
            }),
    {
        match self {
            ProviderKind::Google => "https://oauth2.googleapis.com/token",
            ProviderKind::Github => "https://github.com/login/oauth/access_token",
        }
    }

    pub fn scope(&self) -> (r: &'static str)
        ensures
            r@ == scope_of(*self),
    {
        match self {
            ProviderKind::Google => "openid email profile",
            ProviderKind::Github => "read:user user:email",
        }
    }

    /// The authorize URL for an already encoded query string.
    pub fn authorize_url_for(&self, query: &str) -> (r: String)
        ensures
            r@ == authorize_endpoint_of(*self) + "?"@ + query@,
    {
        let mut s = String::new();
        s.append(self.authorize_endpoint());
        s.append("?");
        s.append(query);
        s
    }
}

/// An enabled provider with its client credentials.
#[derive(Debug, Clone)]
pub struct ProviderConfig {
    pub kind: ProviderKind,
    pub client_id: String,
    pub client_secret: String,
}

/// The identity we care about from a provider. `subject` is the provider's
/// stable user id (Google `sub`, GitHub numeric `id`), the durable identity
/// key; the email is verified profile data.
#[derive(Debug, Clone)]
pub struct OAuthUser {
    pub subject: String,
    pub email: String,
    pub name: Option<String>,
}

/// The generic client-facing message of a failed sign-in step.
pub open spec fn signin_unavailable() -> Seq<char> {
    "sign-in is temporarily unavailable; try again"@
}

/// A generic error that leaks no upstream status, body or parse detail to the
/// client, whatever `context` and `detail` (operator diagnostics) say.
pub fn upstream_err(context: &str, detail: &str) -> (r: AppError)
    ensures
        is_upstream(r, signin_unavailable()),
{
    AppError::Upstream("sign-in is temporarily unavailable; try again".to_string())
}

/// `application/x-www-form-urlencoded` serialization of name/value pairs, as
/// `serde_urlencoded::to_string` produces it for a sequence of string pairs.
pub uninterp spec fn form_urlencoded(pairs: Seq<(Seq<char>, Seq<char>)>) -> Seq<char>;

/// Serializes string pairs with `serde_urlencoded::to_string`. Claimed: the
/// result is `form_urlencoded` of the pairs (for string pairs the serializer
/// does not fail, so the `unwrap_or_default` fallback is never taken); the
/// percent-encoding itself is left unsaid.
#[verifier::external_body]
fn urlencode_pairs(pairs: &[(&str, &str)]) -> (r: String)
    ensures
        r@ == form_urlencoded(pairs.deep_view()),
{
    serde_urlencoded::to_string(pairs).unwrap_or_default()
}

/// The query of a provider's authorize URL.
pub open spec fn authorize_query(
    client_id: Seq<char>,
    kind: ProviderKind,
    redirect_uri: Seq<char>,
    state: Seq<char>,
) -> Seq<(Seq<char>, Seq<char>)> {
    seq![
        ("client_id"@, client_id),
        ("redirect_uri"@, redirect_uri),
        ("response_type"@, "code"@),
        ("scope"@, scope_of(kind)),
        ("state"@, state),
    ]
}

impl ProviderConfig {
    /// Build the provider authorize URL to redirect the browser to.
    pub fn authorize_url(&self, redirect_uri: &str, state: &str) -> (r: String)
        ensures
            r@ == authorize_endpoint_of(self.kind) + "?"@ + form_urlencoded(
                authorize_query(self.client_id@, self.kind, redirect_uri@, state@),
            ),
    {
        let params = [
            ("client_id", self.client_id.as_str()),
            ("redirect_uri", redirect_uri),
            ("response_type", "code"),
            ("scope", self.kind.scope()),
            ("state", state),
        ];
        assert(params.deep_view() =~= authorize_query(
            self.client_id@,
            self.kind,
            redirect_uri@,
            state@,
        ));
        let query = urlencode_pairs(params.as_slice());
        self.kind.authorize_url_for(query.as_str())
    }
}

/// The message when a provider's account has no verified email.
pub open spec fn no_verified_email(provider: Seq<char>) -> Seq<char> {
    "your "@ + provider + " account has no verified email"@
}

/// The identity from Google's userinfo: its subject, with its email only when
/// Google marks that email verified.
pub fn google_identity(
    sub: String,
    email: Option<String>,
    email_verified: Option<bool>,
    name: Option<String>,
) -> (r: Result<OAuthUser, AppError>)
    ensures
        (email is Some && email_verified == Some(true)) ==> (r matches Ok(u) && u.subject == sub
            && Some(u.email) == email && u.name == name),
        !(email is Some && email_verified == Some(true)) ==> (r matches Err(e) && is_upstream(
            e,
            no_verified_email("Google"@),
        )),
{
    proof {
        reveal_strlit("Google");
        reveal_strlit("your ");
        reveal_strlit(" account has no verified email");
        reveal_strlit("your Google account has no verified email");
    }
    let verified = match email_verified {
        Some(v) => v,
        None => false,
    };
    match email {
        Some(e) if verified => Ok(OAuthUser { subject: sub, email: e, name }),
        _ => {
            let m = "your Google account has no verified email".to_string();
            assert(m@ =~= no_verified_email("Google"@));
            Err(AppError::Upstream(m))
        },
    }
}

/// One of a GitHub account's email addresses.
#[derive(Debug, Clone)]
pub struct GithubEmail {
    pub email: String,
    pub primary: bool,
    pub verified: bool,
}

/// The position of the first primary, verified address.
pub open spec fn first_primary_verified(emails: Seq<GithubEmail>) -> Option<int>
    decreases emails.len(),
{
    if emails.len() == 0 {
        None
    } else {
        match first_primary_verified(emails.drop_last()) {
            Some(i) => Some(i),
            None => if emails.last().primary && emails.last().verified {
                Some(emails.len() - 1)
            } else {
                None
            },
        }
    }
}

/// The identity from GitHub's user and emails answers: the numeric account id
/// as the subject, and the first address that is both primary and verified.
pub fn github_identity(id: i64, name: Option<String>, emails: Vec<GithubEmail>) -> (r: Result<
    OAuthUser,
    AppError,
>)
    ensures
        match first_primary_verified(emails@) {
            Some(i) => r matches Ok(u) && u.subject@ == int_text(id as int) && u.email
                == emails@[i].email && u.name == name,
            None => r matches Err(e) && is_upstream(e, no_verified_email("GitHub"@)),
        },
{
    proof {
        reveal_strlit("GitHub");
        reveal_strlit("your ");
        reveal_strlit(" account has no verified email");
        reveal_strlit("your GitHub account has no verified email");
    }
    let mut i: usize = 0;
    while i < emails.len()
        invariant
            i <= emails@.len(),
            first_primary_verified(emails@.take(i as int)) is None,
        decreases emails@.len() - i,
    {
        assert(emails@.take(i + 1).drop_last() == emails@.take(i as int));
        if emails[i].primary && emails[i].verified {
            proof {
                lemma_first_found(emails@, i as int);
            }
            let email = emails[i].email.clone();
            return Ok(OAuthUser { subject: int_string(id), email, name });
        }
        i = i + 1;
    }
    assert(emails@.take(emails@.len() as int) == emails@);
    let m = "your GitHub account has no verified email".to_string();
    assert(m@ =~= no_verified_email("GitHub"@));
    Err(AppError::Upstream(m))
}

proof fn lemma_first_found(emails: Seq<GithubEmail>, i: int)
    requires
        0 <= i < emails.len(),
        first_primary_verified(emails.take(i)) is None,
        emails[i].primary && emails[i].verified,
    ensures
        first_primary_verified(emails) == Some(i),
    decreases emails.len() - i,
{
    if i == emails.len() - 1 {
        assert(emails.drop_last() == emails.take(i));
    } else {
        assert(emails.drop_last().take(i) == emails.take(i));
        lemma_first_found(emails.drop_last(), i);
    }
}

} // verus!
