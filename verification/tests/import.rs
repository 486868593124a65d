use std::collections::HashMap;
use fillerkiller::error::AppError;
use fillerkiller::import::{
    parse_date, parse_show_ref, parse_year, seasons_to_fetch, show_not_found, CalendarDate,
    ShowRef,
};

#[test]
fn parse_year_extracts_leading_year() {
    assert_eq!(parse_year("2011-04-17"), Some(2011));
    assert_eq!(parse_year("1998"), Some(1998));
    assert_eq!(parse_year(""), None);
    assert_eq!(parse_year("n/a"), None);
}

#[test]
fn parse_year_reads_four_characters_as_an_integer() {
    assert_eq!(parse_year("-199x"), Some(-199));
    assert_eq!(parse_year("+123"), Some(123));
    assert_eq!(parse_year("19é9"), None);
    assert_eq!(parse_year("12a4-01-01"), None);
}

#[test]
fn parse_date_handles_empty_and_valid() {
    assert_eq!(parse_date(""), None);
    assert_eq!(parse_date("not-a-date"), None);
    assert_eq!(parse_date("2011-04-17"), Some(CalendarDate { year: 2011, month: 4, day: 17 }));
}

#[test]
fn parse_date_rejects_impossible_days() {
    assert_eq!(parse_date("2011-02-30"), None);
    assert_eq!(parse_date("2024-02-29"), Some(CalendarDate { year: 2024, month: 2, day: 29 }));
}

#[test]
fn show_refs_read_tmdb_ids_and_keys() {
    match parse_show_ref("tmdb:1396").unwrap() {
        ShowRef::Tmdb(n) => assert_eq!(n, 1396),
        other => panic!("unexpected {other:?}"),
    }
    match parse_show_ref("breaking-bad").unwrap() {
        ShowRef::Key(k) => assert_eq!(k, "breaking-bad"),
        other => panic!("unexpected {other:?}"),
    }
    match parse_show_ref("tmdb:12x") {
        Err(AppError::BadRequest(m)) => assert_eq!(m, "invalid tmdb id: \"12x\""),
        other => panic!("unexpected {other:?}"),
    }
    match parse_show_ref("tmdb:99999999999999999999") {
        Err(AppError::BadRequest(_)) => {}
        other => panic!("unexpected {other:?}"),
    }
    match show_not_found("x") {
        AppError::NotFound(m) => assert_eq!(m, "show \"x\" not found"),
        other => panic!("unexpected {other:?}"),
    }
}

#[test]
fn refresh_fetches_only_new_or_grown_seasons() {
    let have: HashMap<i32, i64> = [(1, 10), (2, 8)].into_iter().collect();
    let seasons = [(1, 10), (2, 10), (3, 4), (0, 0)];
    assert_eq!(seasons_to_fetch(&have, &seasons), vec![1, 2]);
    assert_eq!(seasons_to_fetch(&HashMap::new(), &[(1, 1)]), vec![0]);
    assert!(seasons_to_fetch(&have, &[]).is_empty());
    // A season that shrank on TMDB is not re-fetched.
    assert!(seasons_to_fetch(&have, &[(1, 9)]).is_empty());
}
