use fillerkiller::guides::{
    check_publish_cap, check_visible, guide_entries, Disposition, GuideEntryRow, GuideMeta,
};
use fillerkiller::error::AppError;

#[test]
fn disposition_db_round_trip() {
    for d in [Disposition::Watch, Disposition::Optional, Disposition::Skip] {
        assert_eq!(Disposition::from_db(d.as_db()), Some(d));
    }
    assert_eq!(Disposition::from_db("watch"), None);
}

#[test]
fn guide_entries_drop_unknown_dispositions() {
    let row = |n: i32, d: &str| GuideEntryRow {
        episode_id: format!("e{n}"),
        season_number: 1,
        episode_number: n,
        name: None,
        disposition: d.to_string(),
        watched: n == 2,
    };
    let entries = guide_entries(&[row(1, "WATCH"), row(2, "SKIP"), row(3, "MAYBE"), row(4, "OPTIONAL")]);
    let got: Vec<(i32, Disposition, bool)> = entries.iter().map(|e| (e.episode_number, e.disposition, e.watched)).collect();
    assert_eq!(got, [(1, Disposition::Watch, false), (2, Disposition::Skip, true), (4, Disposition::Optional, false)]);
}

#[test]
fn drafts_are_hidden_from_everyone_but_their_author() {
    let draft = GuideMeta { author_id: Some(7), show_id: 1, is_published: false };
    assert!(check_visible(Some(draft), Some(7)).is_ok());
    match check_visible(Some(draft), Some(8)) {
        Err(AppError::NotFound(m)) => assert_eq!(m, "guide not found"),
        other => panic!("unexpected {other:?}"),
    }
    assert!(check_visible(Some(draft), None).is_err());
    assert!(check_visible(None, Some(7)).is_err());
    let published = GuideMeta { is_published: true, ..draft };
    assert!(check_visible(Some(published), None).is_ok());
    assert!(check_publish_cap(false, 1000).is_ok());
}
