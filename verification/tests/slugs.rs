use fillerkiller::db::{
    login_account, normalize_email, records_identity, slug_base, slug_candidate, slugify,
    LoginAccount,
};

#[test]
fn slugify_basic() {
    assert_eq!(slugify("Star Trek: The Next Generation"), "star-trek-the-next-generation");
    assert_eq!(slugify("Marvel's Agents of S.H.I.E.L.D."), "marvel-s-agents-of-s-h-i-e-l-d");
    assert_eq!(slugify("WandaVision"), "wandavision");
}

#[test]
fn slugify_collapses_and_trims() {
    assert_eq!(slugify("  Hello —— World!!  "), "hello-world");
    assert_eq!(slugify("12 Monkeys"), "12-monkeys");
    assert_eq!(slugify("---"), "");
    assert_eq!(slugify("ＡＢＣ"), ""); // non-ascii letters drop → caller falls back to tmdb id
}

#[test]
fn slugify_joins_the_alphanumeric_runs_with_dashes() {
    // Runs "doctor", "who", "2005"; the separators between them become one dash each.
    assert_eq!(slugify("(Doctor) Who?? [2005]"), "doctor-who-2005");
    assert_eq!(slugify("a.b"), "a-b");
    assert_eq!(slugify("ab"), "ab");
    assert_eq!(slugify("é1"), "1");
}

#[test]
fn slugify_is_idempotent_on_examples() {
    for name in ["Star Trek: The Next Generation", "  Hello —— World!!  ", "a--b", "Z"] {
        let once = slugify(name);
        assert_eq!(slugify(&once), once);
    }
}

#[test]
fn slug_base_falls_back_to_the_tmdb_id() {
    assert_eq!(slug_base("Breaking Bad", 1396), "breaking-bad");
    assert_eq!(slug_base("ＡＢＣ", 42), "42");
    assert_eq!(slug_base("!!!", -7), "-7");
}

#[test]
fn slug_candidates_add_the_tmdb_id_then_a_counter() {
    assert_eq!(slug_candidate("foo", 100, 0), "foo");
    assert_eq!(slug_candidate("foo", 100, 1), "foo-100");
    assert_eq!(slug_candidate("foo", 100, 2), "foo-100-2");
    assert_eq!(slug_candidate("foo", 100, 13), "foo-100-13");
}

#[test]
fn normalize_email_trims_and_lowercases() {
    assert_eq!(normalize_email("  Ann@Example.COM \n"), "ann@example.com");
    assert_eq!(normalize_email("ann@example.com"), "ann@example.com");
    assert_eq!(normalize_email("ÉLODIE@EXAMPLE.FR"), "élodie@example.fr");
}

#[test]
fn linked_identity_wins_over_email() {
    match login_account(Some("u1".into()), Some("u2".into())) {
        LoginAccount::Linked(u) => assert_eq!(u, "u1"),
        other => panic!("unexpected {other:?}"),
    }
    match login_account(None, Some("u2".into())) {
        LoginAccount::EmailMatch(u) => assert_eq!(u, "u2"),
        other => panic!("unexpected {other:?}"),
    }
    let fresh = login_account(None, None);
    assert!(matches!(fresh, LoginAccount::New));
    assert!(records_identity(&fresh));
    assert!(!records_identity(&LoginAccount::Linked("u".into())));
}
