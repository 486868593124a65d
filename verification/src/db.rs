//! The catalog's own rules around the database: URL slugs, canonical emails,
//! and the rows the pages are rendered from.
use vstd::prelude::*;
use crate::text::{
    ascii_lower, chars_of, int_string, int_text, is_ascii_alnum, is_ascii_alphanumeric, is_ws,
    lowercase, push_char, push_digits, to_ascii_lowercase, to_lowercase, trim, trim_str, digits,
    trim_start, trim_end,
};

verus! {

/// Core show fields used to build a show page.
#[derive(Debug, Clone)]
pub struct ShowCore {
    pub tmdb_id: i64,
    pub name: String,
    pub slug: String,
    pub overview: Option<String>,
    pub poster_path: Option<String>,
    /// TMDB's overall rating, as the JSON number text it is published with
    /// (for example `8.9`).
    pub tmdb_vote_average: Option<String>,
    pub tmdb_vote_count: Option<i32>,
}

/// A show's sitemap entry: its slug and when it was last re-synced, in seconds
/// since the Unix epoch (the sitemap `<lastmod>`).
#[derive(Debug, Clone)]
pub struct SitemapShow {
    pub slug: String,
    pub last_synced_at: i64,
}

/// A published user-authored guide's sitemap entry: its show's slug, its id
/// (hyphenated UUID text) and its last update, in seconds since the Unix epoch.
#[derive(Debug, Clone)]
pub struct SitemapGuide {
    pub show_slug: String,
    pub id: String,
    pub updated_at: i64,
}

/// The slug of a name scanned so far: the slug text and whether a run of
/// separators is waiting to become a dash.
pub open spec fn slug_scan(s: Seq<char>) -> (Seq<char>, bool)
    decreases s.len(),
{
    if s.len() == 0 {
        (Seq::empty(), false)
    } else {
        let (out, pending) = slug_scan(s.drop_last());
        let c = s.last();
        if is_ascii_alnum(c) {
            (
                (if pending && out.len() > 0 {
                    out.push('-')
                } else {
                    out
                }).push(ascii_lower(c)),
                false,
            )
        } else {
            (out, true)
        }
    }
}

/// The URL slug of a name: ASCII letters and digits lowercased, every run of
/// other characters between them collapsed to one dash, none at either end.
pub open spec fn slug_of(name: Seq<char>) -> Seq<char> {
    slug_scan(name).0
}

/// A character that may appear in a slug.
pub open spec fn slug_char(c: char) -> bool {
    ('a' <= c && c <= 'z') || ('0' <= c && c <= '9') || c == '-'
}

/// Well-formed slug text: lowercase ASCII letters, digits and single dashes,
/// never a dash at either end.
pub open spec fn is_slug(s: Seq<char>) -> bool {
    &&& forall|i: int| 0 <= i < s.len() ==> slug_char(#[trigger] s[i])
    &&& s.len() > 0 ==> s[0] != '-' && s.last() != '-'
    &&& forall|i: int| 0 <= i < s.len() - 1 ==> !(#[trigger] s[i] == '-' && s[i + 1] == '-')
}

/// Some character of `s` is an ASCII letter or digit.
pub open spec fn has_alnum(s: Seq<char>) -> bool {
    exists|i: int| 0 <= i < s.len() && is_ascii_alnum(#[trigger] s[i])
}

proof fn lemma_slug_scan(s: Seq<char>)
    ensures
        is_slug(slug_scan(s).0),
        slug_scan(s).0.len() > 0 <==> has_alnum(s),
    decreases s.len(),
{
    if s.len() > 0 {
        let prev = s.drop_last();
        lemma_slug_scan(prev);
        let (out, pending) = slug_scan(prev);
        let c = s.last();
        if is_ascii_alnum(c) {
            let mid = if pending && out.len() > 0 {
                out.push('-')
            } else {
                out
            };
            let r = mid.push(ascii_lower(c));
            assert(slug_char(ascii_lower(c)));
            assert forall|i: int| 0 <= i < r.len() implies slug_char(#[trigger] r[i]) by {
                if i < out.len() {
                    assert(r[i] == out[i]);
                }
            }
            assert forall|i: int| 0 <= i < r.len() - 1 implies !(#[trigger] r[i] == '-' && r[i
                + 1] == '-') by {
                if i + 1 < out.len() {
                    assert(r[i] == out[i] && r[i + 1] == out[i + 1]);
                } else if i + 1 == out.len() {
                    assert(r[i] == out.last());
                }
            }
            assert(s[s.len() - 1] == c);
        } else {
            assert forall|i: int| 0 <= i < prev.len() && is_ascii_alnum(#[trigger] prev[i]) implies
                has_alnum(s) by {
                assert(s[i] == prev[i]);
            }
            if has_alnum(s) {
                let i = choose|i: int| 0 <= i < s.len() && is_ascii_alnum(#[trigger] s[i]);
                assert(prev[i] == s[i]);
            }
        }
        if has_alnum(prev) {
            let i = choose|i: int| 0 <= i < prev.len() && is_ascii_alnum(#[trigger] prev[i]);
            assert(s[i] == prev[i]);
        }
    }
}

proof fn lemma_slug_prefix(w: Seq<char>, k: int)
    requires
        is_slug(w),
        0 <= k <= w.len(),
    ensures
        slug_scan(w.take(k)) == (if k > 0 && w[k - 1] == '-' {
            (w.take(k - 1), true)
        } else {
            (w.take(k), false)
        }),
    decreases k,
{
    if k > 0 {
        lemma_slug_prefix(w, k - 1);
        assert(w.take(k).drop_last() == w.take(k - 1));
        assert(w.take(k).last() == w[k - 1]);
        let c = w[k - 1];
        assert(slug_char(c));
        if c != '-' {
            assert(ascii_lower(c) == c);
            if k > 1 && w[k - 2] == '-' {
                assert(k - 2 > 0) by {
                    assert(w[0] != '-');
                }
                assert(w.take(k - 2).push('-').push(c) =~= w.take(k));
            } else {
                assert(w.take(k - 1).push(c) =~= w.take(k));
            }
        } else {
            assert(k > 1) by {
                assert(w[0] != '-');
            }
            assert(w[k - 2] != '-');
        }
    }
}

/// Slugging is idempotent: a slug is its own slug.
pub proof fn lemma_slug_idempotent(name: Seq<char>)
    ensures
        slug_of(slug_of(name)) == slug_of(name),
{
    let w = slug_of(name);
    lemma_slug_scan(name);
    lemma_slug_prefix(w, w.len() as int);
    assert(w.take(w.len() as int) == w);
}

/// The runs of ASCII letters and digits in `s` scanned so far, lowercased: the
/// runs a separator has closed, and the run still open at the end.
pub open spec fn run_scan(s: Seq<char>) -> (Seq<Seq<char>>, Seq<char>)
    decreases s.len(),
{
    if s.len() == 0 {
        (Seq::empty(), Seq::empty())
    } else {
        let (done, cur) = run_scan(s.drop_last());
        let c = s.last();
        if is_ascii_alnum(c) {
            (done, cur.push(ascii_lower(c)))
        } else if cur.len() > 0 {
            (done.push(cur), Seq::empty())
        } else {
            (done, cur)
        }
    }
}

/// The maximal runs of ASCII letters and digits of `s`, in order, lowercased.
pub open spec fn alnum_runs(s: Seq<char>) -> Seq<Seq<char>> {
    let (done, cur) = run_scan(s);
    if cur.len() > 0 {
        done.push(cur)
    } else {
        done
    }
}

/// The runs joined by single dashes.
pub open spec fn dash_join(runs: Seq<Seq<char>>) -> Seq<char>
    decreases runs.len(),
{
    if runs.len() == 0 {
        Seq::empty()
    } else if runs.len() == 1 {
        runs[0]
    } else {
        dash_join(runs.drop_last()) + seq!['-'] + runs.last()
    }
}

proof fn lemma_dash_join_nonempty(runs: Seq<Seq<char>>)
    requires
        runs.len() > 0,
        forall|i: int| 0 <= i < runs.len() ==> (#[trigger] runs[i]).len() > 0,
    ensures
        dash_join(runs).len() > 0,
    decreases runs.len(),
{
    if runs.len() > 1 {
        lemma_dash_join_nonempty(runs.drop_last());
    }
}

/// What the slug scan has written, in terms of the runs scanned so far.
proof fn lemma_slug_scan_runs(s: Seq<char>)
    ensures
        ({
            let (out, pending) = slug_scan(s);
            let (done, cur) = run_scan(s);
            &&& forall|i: int| 0 <= i < done.len() ==> (#[trigger] done[i]).len() > 0
            &&& cur.len() > 0 ==> !pending
            &&& cur.len() == 0 && done.len() > 0 ==> pending
            &&& out == (if cur.len() == 0 {
                dash_join(done)
            } else if done.len() == 0 {
                cur
            } else {
                dash_join(done) + seq!['-'] + cur
            })
        }),
    decreases s.len(),
{
    if s.len() > 0 {
        let prev = s.drop_last();
        lemma_slug_scan_runs(prev);
        let (out, pending) = slug_scan(prev);
        let (done, cur) = run_scan(prev);
        let c = s.last();
        let l = ascii_lower(c);
        if is_ascii_alnum(c) {
            if cur.len() > 0 {
                if done.len() > 0 {
                    assert((dash_join(done) + seq!['-'] + cur).push(l) =~= dash_join(done)
                        + seq!['-'] + cur.push(l));
                }
            } else if done.len() > 0 {
                lemma_dash_join_nonempty(done);
                assert(out.push('-').push(l) =~= dash_join(done) + seq!['-'] + cur.push(l));
            } else {
                assert(out.push(l) =~= cur.push(l));
            }
        } else if cur.len() > 0 {
            let d2 = done.push(cur);
            assert(d2.drop_last() =~= done);
            assert forall|i: int| 0 <= i < d2.len() implies (#[trigger] d2[i]).len() > 0 by {
                if i < done.len() {
                    assert(d2[i] == done[i]);
                }
            }
        }
    }
}

/// A slug is the name's runs of ASCII letters and digits, lowercased, in order,
/// joined by single dashes: every letter and digit of the name is kept, nothing
/// else is, and two kept characters get a dash between them exactly when some
/// other character stood between them in the name.
pub proof fn lemma_slug_joins_alnum_runs(name: Seq<char>)
    ensures
        slug_of(name) == dash_join(alnum_runs(name)),
        forall|i: int|
            0 <= i < alnum_runs(name).len() ==> (#[trigger] alnum_runs(name)[i]).len() > 0,
{
    lemma_slug_scan_runs(name);
    let (done, cur) = run_scan(name);
    if cur.len() > 0 {
        let d2 = done.push(cur);
        assert(d2.drop_last() =~= done);
        assert forall|i: int| 0 <= i < d2.len() implies (#[trigger] d2[i]).len() > 0 by {
            if i < done.len() {
                assert(d2[i] == done[i]);
            }
        }
    }
}

/// URL slug for a show name: lowercase, runs of non-alphanumerics collapsed to
/// a single dash, dashes trimmed from the ends. May return "" (the caller falls
/// back to the tmdb id).
pub fn slugify(name: &str) -> (r: String)
    ensures
        r@ == slug_of(name@),
        is_slug(r@),
        r@.len() == 0 <==> !has_alnum(name@),
{
    let v = chars_of(name);
    let mut slug = String::new();
    let mut pending_dash = false;
    let mut i: usize = 0;
    while i < v.len()
        invariant
            v@ == name@,
            i <= v@.len(),
            (slug@, pending_dash) == slug_scan(v@.take(i as int)),
        decreases v@.len() - i,
    {
        assert(v@.take(i + 1).drop_last() == v@.take(i as int));
        let ch = v[i];
        if is_ascii_alphanumeric(ch) {
            if pending_dash && !slug.as_str().is_empty() {
                push_char(&mut slug, '-');
            }
            pending_dash = false;
            push_char(&mut slug, to_ascii_lowercase(ch));
        } else {
            pending_dash = true;
        }
        i = i + 1;
    }
    assert(v@.take(v@.len() as int) == v@);
    proof {
        lemma_slug_scan(name@);
    }
    slug
}

/// The slug a show starts from: its name's slug, or its TMDB id when the name
/// has no letters or digits.
pub open spec fn base_slug(name: Seq<char>, tmdb_id: int) -> Seq<char> {
    if slug_of(name).len() == 0 {
        int_text(tmdb_id)
    } else {
        slug_of(name)
    }
}

/// The `n`-th slug tried for a show whose base slug is taken by another show:
/// the base, then `base-<tmdb_id>`, then `base-<tmdb_id>-<n>`.
pub open spec fn slug_candidate_text(base: Seq<char>, tmdb_id: int, n: nat) -> Seq<char> {
    if n == 0 {
        base
    } else if n == 1 {
        base + "-"@ + int_text(tmdb_id)
    } else {
        base + "-"@ + int_text(tmdb_id) + "-"@ + digits(n)
    }
}

/// The base slug for a show.
pub fn slug_base(name: &str, tmdb_id: i64) -> (r: String)
    ensures
        r@ == base_slug(name@, tmdb_id as int),
{
    let s = slugify(name);
    if s.as_str().is_empty() {
        int_string(tmdb_id)
    } else {
        s
    }
}

/// The `n`-th candidate slug: `pick_unique_slug` tries `n = 0, 1, 2, …` and
/// keeps the first that no other show holds.
pub fn slug_candidate(base: &str, tmdb_id: i64, n: u32) -> (r: String)
    ensures
        r@ == slug_candidate_text(base@, tmdb_id as int, n as nat),
{
    let mut s = String::new();
    s.append(base);
    assert(s@ =~= base@);
    if n >= 1 {
        s.append("-");
        let id = int_string(tmdb_id);
        s.append(id.as_str());
        if n >= 2 {
            s.append("-");
            push_digits(&mut s, n as u64);
        }
    }
    s
}

/// The canonical form of an email address: trimmed, then lowercased.
pub open spec fn normalized_email(email: Seq<char>) -> Seq<char> {
    lowercase(trim(email))
}

/// Canonical form for emails: trimmed, lowercased. Applied before every
/// store/compare so case/whitespace variants of one mailbox can't become
/// distinct accounts.
pub fn normalize_email(email: &str) -> (r: String)
    ensures
        r@ == normalized_email(email@),
{
    let t = trim_str(email);
    to_lowercase(t.as_str())
}

/// The account an OAuth login signs into.
#[derive(Debug, Clone)]
pub enum LoginAccount {
    /// The provider identity is already linked to this user.
    Linked(String),
    /// First login from this provider identity; an existing user holds the
    /// same (verified) email, so the identity is linked to them.
    EmailMatch(String),
    /// First login and no user holds the email: a new account.
    New,
}

/// The account a login signs into, from the user its provider identity is
/// linked to (if any) and the user holding its email (if any).
pub open spec fn login_decision(identity_user: Option<String>, email_user: Option<String>) -> LoginAccount {
    match identity_user {
        Some(u) => LoginAccount::Linked(u),
        None => match email_user {
            Some(u) => LoginAccount::EmailMatch(u),
            None => LoginAccount::New,
        },
    }
}

/// Resolve an OAuth login to our user, keyed on the provider's stable subject
/// id: a linked identity decides alone (an email change at the provider
/// follows the account instead of forking it); the email is consulted only on
/// the identity's first login.
pub fn login_account(identity_user: Option<String>, email_user: Option<String>) -> (r: LoginAccount)
    ensures
        r == login_decision(identity_user, email_user),
{
    match identity_user {
        Some(u) => LoginAccount::Linked(u),
        None => match email_user {
            Some(u) => LoginAccount::EmailMatch(u),
            None => LoginAccount::New,
        },
    }
}

/// A first login records its provider identity; a linked one already has it.
pub fn records_identity(a: &LoginAccount) -> (r: bool)
    ensures
        r == !(a is Linked),
{
    match a {
        LoginAccount::Linked(_) => false,
        _ => true,
    }
}

/// The user whose account holds email `e`, if any (`mail` maps each user to
/// the email of their account).
pub open spec fn email_holder(mail: Map<String, Seq<char>>, e: Seq<char>) -> Option<String> {
    if exists|u: String| mail.contains_key(u) && mail[u] == e {
        Some(choose|u: String| mail.contains_key(u) && mail[u] == e)
    } else {
        None
    }
}

/// The account store a login reads and writes: `ids` links each (provider,
/// subject) identity to a user, `mail` gives each user their account's email.
/// Every linked user has an account, and no two accounts share an email.
pub open spec fn accounts_wf(ids: Map<(Seq<char>, Seq<char>), String>, mail: Map<String, Seq<char>>) -> bool {
    &&& forall|k: (Seq<char>, Seq<char>)| #[trigger] ids.contains_key(k) ==> mail.contains_key(ids[k])
    &&& forall|u1: String, u2: String|
        #[trigger] mail.contains_key(u1) && #[trigger] mail.contains_key(u2) && mail[u1] == mail[u2]
            ==> u1 == u2
}

/// One login, as the store carries out `login_decision` for identity
/// (`provider`, `subject`) and normalized email `e`: the new account store and
/// the user signed in. The email is consulted only when the identity is not
/// linked; a linked login moves the account to `e` unless another account
/// holds it; a first login links the identity; a new account (`fresh`, not yet
/// a user) takes the email.
pub open spec fn login_next(
    ids: Map<(Seq<char>, Seq<char>), String>,
    mail: Map<String, Seq<char>>,
    provider: Seq<char>,
    subject: Seq<char>,
    e: Seq<char>,
    fresh: String,
) -> (Map<(Seq<char>, Seq<char>), String>, Map<String, Seq<char>>, String) {
    let key = (provider, subject);
    let known = if ids.contains_key(key) {
        Some(ids[key])
    } else {
        None
    };
    let by_email = if known is None {
        email_holder(mail, e)
    } else {
        None
    };
    match login_decision(known, by_email) {
        LoginAccount::Linked(u) => (
            ids,
            if email_holder(mail, e) is None || email_holder(mail, e) == Some(u) {
                mail.insert(u, e)
            } else {
                mail
            },
            u,
        ),
        LoginAccount::EmailMatch(u) => (ids.insert(key, u), mail, u),
        LoginAccount::New => (ids.insert(key, fresh), mail.insert(fresh, e), fresh),
    }
}

proof fn lemma_email_holder_is(mail: Map<String, Seq<char>>, e: Seq<char>, u: String)
    requires
        mail.contains_key(u),
        mail[u] == e,
        forall|u1: String, u2: String|
            #[trigger] mail.contains_key(u1) && #[trigger] mail.contains_key(u2) && mail[u1]
                == mail[u2] ==> u1 == u2,
    ensures
        email_holder(mail, e) == Some(u),
{
    let h = choose|h: String| mail.contains_key(h) && mail[h] == e;
    assert(mail.contains_key(h) && mail.contains_key(u) && mail[h] == mail[u]);
}

/// Logins are keyed on the provider identity, across calls. For a well-formed
/// store and any login:
/// - the store stays well-formed, links the identity to the user signed in,
///   and leaves every other link as it was;
/// - an identity already linked signs into its user, whatever email it brings;
/// - an identity's first login signs into the user holding its email;
/// - a linked login whose email no other account holds moves the account to
///   that email, so a later first login with it signs into the same user.
pub proof fn lemma_login_keyed_on_identity(
    ids: Map<(Seq<char>, Seq<char>), String>,
    mail: Map<String, Seq<char>>,
    provider: Seq<char>,
    subject: Seq<char>,
    e: Seq<char>,
    fresh: String,
)
    requires
        accounts_wf(ids, mail),
        !mail.contains_key(fresh),
    ensures
        ({
            let (ids2, mail2, user) = login_next(ids, mail, provider, subject, e, fresh);
            let key = (provider, subject);
            &&& accounts_wf(ids2, mail2)
            &&& ids2.contains_key(key) && ids2[key] == user
            &&& forall|k: (Seq<char>, Seq<char>)|
                #[trigger] ids.contains_key(k) ==> ids2.contains_key(k) && ids2[k] == ids[k]
            &&& ids.contains_key(key) ==> user == ids[key]
            &&& !ids.contains_key(key) && email_holder(mail, e) is Some ==> Some(user)
                == email_holder(mail, e)
            &&& ids.contains_key(key) && (email_holder(mail, e) is None || email_holder(mail, e)
                == Some(ids[key])) ==> email_holder(mail2, e) == Some(user)
        }),
{
    let key = (provider, subject);
    let (ids2, mail2, user) = login_next(ids, mail, provider, subject, e, fresh);
    let h = email_holder(mail, e);
    if h is Some {
        let hu = h->0;
        assert(mail.contains_key(hu) && mail[hu] == e);
    }
    if ids.contains_key(key) {
        let u = ids[key];
        if h is None || h == Some(u) {
            // The account moves to `e`; no other account held it.
            assert forall|u1: String, u2: String|
                #[trigger] mail2.contains_key(u1) && #[trigger] mail2.contains_key(u2) && mail2[u1]
                    == mail2[u2] implies u1 == u2 by {
                if u1 != u && u2 == u {
                    assert(mail.contains_key(u1) && mail[u1] == e);
                    lemma_email_holder_is(mail, e, u1);
                } else if u1 == u && u2 != u {
                    assert(mail.contains_key(u2) && mail[u2] == e);
                    lemma_email_holder_is(mail, e, u2);
                }
            }
            lemma_email_holder_is(mail2, e, u);
        }
    } else if h is Some {
        let hu = h->0;
        assert(mail.contains_key(hu));
    } else {
        assert forall|u1: String, u2: String|
            #[trigger] mail2.contains_key(u1) && #[trigger] mail2.contains_key(u2) && mail2[u1]
                == mail2[u2] implies u1 == u2 by {
            if u1 != fresh && u2 == fresh {
                assert(mail.contains_key(u1) && mail[u1] == e);
            } else if u1 == fresh && u2 != fresh {
                assert(mail.contains_key(u2) && mail[u2] == e);
            }
        }
        assert forall|k: (Seq<char>, Seq<char>)| #[trigger] ids.contains_key(k) implies ids[k]
            != fresh by {
            assert(mail.contains_key(ids[k]));
        }
    }
}

/// Every character is whitespace.
pub open spec fn all_ws(s: Seq<char>) -> bool {
    forall|i: int| 0 <= i < s.len() ==> is_ws(#[trigger] s[i])
}

proof fn lemma_trim_start_ws_prefix(p: Seq<char>, t: Seq<char>)
    requires
        all_ws(p),
    ensures
        trim_start(p + t) == trim_start(t),
    decreases p.len(),
{
    if p.len() > 0 {
        assert((p + t)[0] == p[0]);
        assert((p + t).drop_first() == p.drop_first() + t);
        lemma_trim_start_ws_prefix(p.drop_first(), t);
    } else {
        assert(p + t == t);
    }
}

proof fn lemma_trim_end_ws_suffix(t: Seq<char>, q: Seq<char>)
    requires
        all_ws(q),
    ensures
        trim_end(t + q) == trim_end(t),
    decreases q.len(),
{
    if q.len() > 0 {
        assert((t + q).last() == q.last());
        assert((t + q).drop_last() == t + q.drop_last());
        lemma_trim_end_ws_suffix(t, q.drop_last());
    } else {
        assert(t + q == t);
    }
}

proof fn lemma_trim_start_append(s: Seq<char>, q: Seq<char>)
    ensures
        trim_start(s).len() > 0 ==> trim_start(s + q) == trim_start(s) + q,
        trim_start(s).len() == 0 ==> trim_start(s + q) == trim_start(q),
    decreases s.len(),
{
    if s.len() == 0 {
        assert(s + q == q);
    } else {
        assert((s + q)[0] == s[0]);
        if is_ws(s[0]) {
            assert((s + q).drop_first() == s.drop_first() + q);
            lemma_trim_start_append(s.drop_first(), q);
        }
    }
}

/// Surrounding whitespace never makes two addresses distinct: an address
/// padded with whitespace normalizes like the address itself.
pub proof fn lemma_email_ignores_surrounding_whitespace(pre: Seq<char>, email: Seq<char>, post: Seq<
    char,
>)
    requires
        all_ws(pre),
        all_ws(post),
    ensures
        normalized_email(pre + email + post) == normalized_email(email),
{
    assert(pre + email + post == pre + (email + post));
    lemma_trim_start_ws_prefix(pre, email + post);
    lemma_trim_start_append(email, post);
    if trim_start(email).len() > 0 {
        lemma_trim_end_ws_suffix(trim_start(email), post);
    } else {
        lemma_trim_start_ws_prefix(post, Seq::empty());
        assert(post + Seq::<char>::empty() == post);
        assert(trim_start(Seq::<char>::empty()) == Seq::<char>::empty());
        assert(trim_start(email) =~= Seq::<char>::empty());
    }
    assert(trim(pre + email + post) == trim(email));
}

} // verus!
